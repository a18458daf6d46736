//! The topic editor's lists: topics on offer and topics in use, each a
//! list of (name, message type) pairs with an optional selected row.
use vstd::prelude::*;

verus! {

/// A list of topics, each `[name, message type]`, with the selected row.
pub struct SelectableTopics {
    pub items: Vec<[String; 2]>,
    pub selected: Option<usize>,
}

/// The row selected after moving down: the one below, or the first after the last.
pub open spec fn next_index(selected: Option<usize>, len: nat) -> usize {
    match selected {
        Some(i) => if i >= len - 1 {
            0
        } else {
            (i + 1) as usize
        },
        None => 0,
    }
}

/// The row selected after moving up: the one above; moving up from the
/// first row selects the position just past the last.
pub open spec fn previous_index(selected: Option<usize>, len: nat) -> usize {
    match selected {
        Some(i) => if i == 0 {
            len as usize
        } else {
            (i - 1) as usize
        },
        None => 0,
    }
}

/// The row that `pop` takes: the selected one, the first when none is; with
/// the first row selected, the position just past the last, which is never
/// a row.
pub open spec fn pop_index(selected: Option<usize>, len: nat) -> int {
    match selected {
        Some(i) => if i == 0 {
            len as int
        } else {
            i as int
        },
        None => 0,
    }
}

impl SelectableTopics {
    /// `pop` has a row to take.
    pub open spec fn can_pop(&self) -> bool {
        pop_index(self.selected, self.items@.len()) < self.items@.len()
    }

    /// `next` can move: an empty list has no last row to move past.
    pub open spec fn can_move_next(&self) -> bool {
        self.selected is Some ==> self.items@.len() > 0
    }

    /// A list of `items` with no row selected.
    pub fn new(items: Vec<[String; 2]>) -> (r: SelectableTopics)
        ensures
            r.items@ == items@,
            r.selected is None,
    {
        SelectableTopics { items, selected: None }
    }

    /// Replaces the items; the selection is reset.
    pub fn set_items(&mut self, items: Vec<[String; 2]>)
        ensures
            final(self).items@ == items@,
            final(self).selected is None,
    {
        self.items = items;
        self.selected = None;
    }

    /// Selects the next row, the first after the last, or the first when none is selected.
    pub fn next(&mut self)
        requires
            old(self).can_move_next(),
        ensures
            final(self).items@ == old(self).items@,
            final(self).selected == Some(next_index(old(self).selected, old(self).items@.len())),
    {
        let i = match self.selected {
            Some(i) => {
                if i >= self.items.len() - 1 {
                    0
                } else {
                    i + 1
                }
            },
            None => 0,
        };
        self.selected = Some(i);
    }

    /// Selects the previous row, or the first when none is selected.
    pub fn previous(&mut self)
        ensures
            final(self).items@ == old(self).items@,
            final(self).selected == Some(
                previous_index(old(self).selected, old(self).items@.len()),
            ),
    {
        let i = match self.selected {
            Some(i) => {
                if i == 0 {
                    self.items.len()
                } else {
                    i - 1
                }
            },
            None => 0,
        };
        self.selected = Some(i);
    }

    /// Clears the selection.
    pub fn unselect(&mut self)
        ensures
            final(self).items@ == old(self).items@,
            final(self).selected is None,
    {
        self.selected = None;
    }

    /// Appends a topic at the end.
    pub fn add(&mut self, element: [String; 2])
        ensures
            final(self).items@ == old(self).items@.push(element),
            final(self).selected == old(self).selected,
    {
        self.items.push(element);
    }

    /// Takes the selected topic out of the list, or the first one when none
    /// is selected. The selection itself stays where it was.
    pub fn pop(&mut self) -> (r: [String; 2])
        requires
            old(self).can_pop(),
        ensures
            ({
                let k = pop_index(old(self).selected, old(self).items@.len());
                &&& r == old(self).items@[k]
                &&& final(self).items@ == old(self).items@.remove(k)
            }),
            final(self).selected == old(self).selected,
    {
        let i = match self.selected {
            Some(i) => {
                if i == 0 {
                    self.items.len()
                } else {
                    i
                }
            },
            None => 0,
        };
        self.items.remove(i)
    }
}

/// The kinds of topic the viewer can display.
#[derive(Clone, Copy, PartialEq, Eq, Structural, Debug)]
pub enum TopicKind {
    LaserScan,
    MarkerArray,
    Marker,
    PoseStamped,
    PoseArray,
    Path,
}

pub open spec fn message_type_spec(k: TopicKind) -> Seq<char> {
    match k {
        TopicKind::LaserScan => "sensor_msgs/LaserScan"@,
        TopicKind::MarkerArray => "visualization_msgs/MarkerArray"@,
        TopicKind::Marker => "visualization_msgs/Marker"@,
        TopicKind::PoseStamped => "geometry_msgs/PoseStamped"@,
        TopicKind::PoseArray => "geometry_msgs/PoseArray"@,
        TopicKind::Path => "nav_msgs/Path"@,
    }
}

/// The kind of a topic by its message type name, if the viewer supports it.
pub open spec fn kind_spec(ty: Seq<char>) -> Option<TopicKind> {
    if ty == message_type_spec(TopicKind::LaserScan) {
        Some(TopicKind::LaserScan)
    } else if ty == message_type_spec(TopicKind::MarkerArray) {
        Some(TopicKind::MarkerArray)
    } else if ty == message_type_spec(TopicKind::Marker) {
        Some(TopicKind::Marker)
    } else if ty == message_type_spec(TopicKind::PoseStamped) {
        Some(TopicKind::PoseStamped)
    } else if ty == message_type_spec(TopicKind::PoseArray) {
        Some(TopicKind::PoseArray)
    } else if ty == message_type_spec(TopicKind::Path) {
        Some(TopicKind::Path)
    } else {
        None
    }
}

impl TopicKind {
    /// The message type name of this kind.
    pub fn message_type(&self) -> (r: String)
        ensures
            r@ == message_type_spec(*self),
    {
        match self {
            TopicKind::LaserScan => "sensor_msgs/LaserScan".to_owned(),
            TopicKind::MarkerArray => "visualization_msgs/MarkerArray".to_owned(),
            TopicKind::Marker => "visualization_msgs/Marker".to_owned(),
            TopicKind::PoseStamped => "geometry_msgs/PoseStamped".to_owned(),
            TopicKind::PoseArray => "geometry_msgs/PoseArray".to_owned(),
            TopicKind::Path => "nav_msgs/Path".to_owned(),
        }
    }

    /// The kind of a message type name; `None` for a type the viewer does not display.
    pub fn from_message_type(ty: &String) -> (r: Option<TopicKind>)
        ensures
            r == kind_spec(ty@),
    {
        if *ty == TopicKind::LaserScan.message_type() {
            Some(TopicKind::LaserScan)
        } else if *ty == TopicKind::MarkerArray.message_type() {
            Some(TopicKind::MarkerArray)
        } else if *ty == TopicKind::Marker.message_type() {
            Some(TopicKind::Marker)
        } else if *ty == TopicKind::PoseStamped.message_type() {
            Some(TopicKind::PoseStamped)
        } else if *ty == TopicKind::PoseArray.message_type() {
            Some(TopicKind::PoseArray)
        } else if *ty == TopicKind::Path.message_type() {
            Some(TopicKind::Path)
        } else {
            None
        }
    }
}

/// A topic as plain text: its name and its message type name.
pub open spec fn topic_view(t: [String; 2]) -> (Seq<char>, Seq<char>) {
    (t@[0]@, t@[1]@)
}

pub open spec fn topics_view(ts: Seq<[String; 2]>) -> Seq<(Seq<char>, Seq<char>)> {
    ts.map_values(|t: [String; 2]| topic_view(t))
}

/// The topics of `ts` whose type the viewer supports, in order.
pub open spec fn supported_spec(ts: Seq<(Seq<char>, Seq<char>)>) -> Seq<(Seq<char>, Seq<char>)>
    decreases ts.len(),
{
    if ts.len() == 0 {
        Seq::empty()
    } else if kind_spec(ts.last().1) is Some {
        supported_spec(ts.drop_last()).push(ts.last())
    } else {
        supported_spec(ts.drop_last())
    }
}

/// The names of the topics of `ts` of kind `k`, in order.
pub open spec fn names_of_kind(ts: Seq<(Seq<char>, Seq<char>)>, k: TopicKind) -> Seq<Seq<char>>
    decreases ts.len(),
{
    if ts.len() == 0 {
        Seq::empty()
    } else if kind_spec(ts.last().1) == Some(k) {
        names_of_kind(ts.drop_last(), k).push(ts.last().0)
    } else {
        names_of_kind(ts.drop_last(), k)
    }
}

pub open spec fn names_view(v: Seq<String>) -> Seq<Seq<char>> {
    v.map_values(|s: String| s@)
}

/// The topics in use, by kind: what the configuration stores.
pub struct TopicSelection {
    pub laser_topics: Vec<String>,
    pub marker_array_topics: Vec<String>,
    pub marker_topics: Vec<String>,
    pub pose_stamped_topics: Vec<String>,
    pub pose_array_topics: Vec<String>,
    pub path_topics: Vec<String>,
}

impl TopicSelection {
    pub open spec fn names(&self, k: TopicKind) -> Seq<Seq<char>> {
        match k {
            TopicKind::LaserScan => names_view(self.laser_topics@),
            TopicKind::MarkerArray => names_view(self.marker_array_topics@),
            TopicKind::Marker => names_view(self.marker_topics@),
            TopicKind::PoseStamped => names_view(self.pose_stamped_topics@),
            TopicKind::PoseArray => names_view(self.pose_array_topics@),
            TopicKind::Path => names_view(self.path_topics@),
        }
    }
}

/// The topics of `names`, each paired with the type name of `k`.
pub open spec fn with_type(names: Seq<Seq<char>>, k: TopicKind) -> Seq<(Seq<char>, Seq<char>)> {
    names.map_values(|n: Seq<char>| (n, message_type_spec(k)))
}

/// The topics in use, kind after kind.
pub open spec fn active_spec(sel: TopicSelection) -> Seq<(Seq<char>, Seq<char>)> {
    with_type(sel.names(TopicKind::LaserScan), TopicKind::LaserScan) + with_type(
        sel.names(TopicKind::MarkerArray),
        TopicKind::MarkerArray,
    ) + with_type(sel.names(TopicKind::Marker), TopicKind::Marker) + with_type(
        sel.names(TopicKind::PoseStamped),
        TopicKind::PoseStamped,
    ) + with_type(sel.names(TopicKind::PoseArray), TopicKind::PoseArray) + with_type(
        sel.names(TopicKind::Path),
        TopicKind::Path,
    )
}

/// Keeps the topics whose type the viewer supports, in order.
pub fn supported_topics(available: Vec<[String; 2]>) -> (r: Vec<[String; 2]>)
    ensures
        topics_view(r@) == supported_spec(topics_view(available@)),
{
    let ghost all = topics_view(available@);
    let mut r: Vec<[String; 2]> = Vec::new();
    let mut i: usize = 0;
    while i < available.len()
        invariant
            i <= available.len(),
            all == topics_view(available@),
            topics_view(r@) == supported_spec(all.subrange(0, i as int)),
        decreases available.len() - i,
    {
        let ghost pre = all.subrange(0, i + 1);
        assert(pre.drop_last() =~= all.subrange(0, i as int));
        assert(pre.last() == topic_view(available@[i as int]));
        let t = &available[i];
        if TopicKind::from_message_type(&t[1]).is_some() {
            r.push(t.clone());
            assert(topics_view(r@) =~= supported_spec(pre));
        }
        i += 1;
    }
    assert(all.subrange(0, available.len() as int) =~= all);
    r
}

/// Appends `names`, each paired with the type name of `k`, to `out`.
fn push_with_type(out: &mut Vec<[String; 2]>, names: &Vec<String>, k: TopicKind)
    ensures
        topics_view(final(out)@) == topics_view(old(out)@) + with_type(names_view(names@), k),
{
    let ghost start = topics_view(out@);
    let mut i: usize = 0;
    while i < names.len()
        invariant
            i <= names.len(),
            topics_view(out@) == start + with_type(names_view(names@.subrange(0, i as int)), k),
        decreases names.len() - i,
    {
        let name = names[i].clone();
        let ty = k.message_type();
        let t: [String; 2] = [name, ty];
        assert(topic_view(t) == (names@[i as int]@, message_type_spec(k)));
        let ghost before = out@;
        out.push(t);
        assert(topics_view(out@) =~= topics_view(before).push(topic_view(t)));
        assert(names@.subrange(0, i + 1).drop_last() =~= names@.subrange(0, i as int));
        i += 1;
        assert(topics_view(out@) =~= start + with_type(names_view(names@.subrange(0, i as int)), k));
    }
    assert(names@.subrange(0, names.len() as int) =~= names@);
}

/// The topics in use, kind after kind, each paired with its type name.
pub fn active_topics(sel: &TopicSelection) -> (r: Vec<[String; 2]>)
    ensures
        topics_view(r@) == active_spec(*sel),
{
    let mut r: Vec<[String; 2]> = Vec::new();
    assert(topics_view(r@) =~= Seq::empty());
    push_with_type(&mut r, &sel.laser_topics, TopicKind::LaserScan);
    push_with_type(&mut r, &sel.marker_array_topics, TopicKind::MarkerArray);
    push_with_type(&mut r, &sel.marker_topics, TopicKind::Marker);
    push_with_type(&mut r, &sel.pose_stamped_topics, TopicKind::PoseStamped);
    push_with_type(&mut r, &sel.pose_array_topics, TopicKind::PoseArray);
    push_with_type(&mut r, &sel.path_topics, TopicKind::Path);
    assert(topics_view(r@) =~= active_spec(*sel));
    r
}

/// A key press, as the topic editor reads it.
#[derive(Clone, Copy, PartialEq, Eq, Structural, Debug)]
pub enum Command {
    Up,
    Down,
    Left,
    Right,
    RotateLeft,
    RotateRight,
    Confirm,
    Other,
}

/// The editor: the topics on offer, the topics in use, and which of the two
/// lists the keys act on (`selection_mode`: the topics on offer).
pub struct TopicManager {
    pub availible_topics: SelectableTopics,
    pub selected_topics: SelectableTopics,
    pub selection_mode: bool,
}

impl TopicManager {
    /// An editor offering the supported topics of `available`, with the
    /// topics of `active` in use, acting on the topics on offer.
    pub fn new(available: Vec<[String; 2]>, active: &TopicSelection) -> (r: TopicManager)
        ensures
            topics_view(r.availible_topics.items@) == supported_spec(topics_view(available@)),
            topics_view(r.selected_topics.items@) == active_spec(*active),
            r.availible_topics.selected is None,
            r.selected_topics.selected is None,
            r.selection_mode,
    {
        let supported = supported_topics(available);
        let all_active = active_topics(active);
        TopicManager {
            availible_topics: SelectableTopics::new(supported),
            selected_topics: SelectableTopics::new(all_active),
            selection_mode: true,
        }
    }

    /// Moves the topic that `pop` takes from the topics on offer to the end
    /// of the topics in use.
    pub fn shift_active_element_right(&mut self)
        requires
            old(self).availible_topics.can_pop(),
        ensures
            ({
                let a = old(self).availible_topics;
                let k = pop_index(a.selected, a.items@.len());
                &&& final(self).availible_topics.items@ == a.items@.remove(k)
                &&& final(self).selected_topics.items@ == old(self).selected_topics.items@.push(
                    a.items@[k],
                )
            }),
            final(self).availible_topics.selected == old(self).availible_topics.selected,
            final(self).selected_topics.selected == old(self).selected_topics.selected,
            final(self).selection_mode == old(self).selection_mode,
    {
        let x = self.availible_topics.pop();
        self.selected_topics.add(x);
    }

    /// Moves the topic that `pop` takes from the topics in use to the end
    /// of the topics on offer.
    pub fn shift_active_element_left(&mut self)
        requires
            old(self).selected_topics.can_pop(),
        ensures
            ({
                let s = old(self).selected_topics;
                let k = pop_index(s.selected, s.items@.len());
                &&& final(self).selected_topics.items@ == s.items@.remove(k)
                &&& final(self).availible_topics.items@ == old(self).availible_topics.items@.push(
                    s.items@[k],
                )
            }),
            final(self).availible_topics.selected == old(self).availible_topics.selected,
            final(self).selected_topics.selected == old(self).selected_topics.selected,
            final(self).selection_mode == old(self).selection_mode,
    {
        let x = self.selected_topics.pop();
        self.availible_topics.add(x);
    }
}

/// The editor as plain values: both lists with their selections, and the
/// list the keys act on.
pub struct EditorView {
    pub offered: Seq<[String; 2]>,
    pub offered_selected: Option<usize>,
    pub in_use: Seq<[String; 2]>,
    pub in_use_selected: Option<usize>,
    pub selection_mode: bool,
}

impl View for TopicManager {
    type V = EditorView;

    open spec fn view(&self) -> EditorView {
        EditorView {
            offered: self.availible_topics.items@,
            offered_selected: self.availible_topics.selected,
            in_use: self.selected_topics.items@,
            in_use_selected: self.selected_topics.selected,
            selection_mode: self.selection_mode,
        }
    }
}

/// A key press can be handled: moving down needs a last row to move past
/// whenever a row is selected, and moving a topic across needs a row to take.
pub open spec fn input_allowed(e: EditorView, cmd: Command) -> bool {
    if e.selection_mode {
        &&& cmd == Command::Down ==> (e.offered_selected is Some ==> e.offered.len() > 0)
        &&& cmd == Command::Right ==> pop_index(e.offered_selected, e.offered.len())
            < e.offered.len()
    } else {
        &&& cmd == Command::Down ==> (e.in_use_selected is Some ==> e.in_use.len() > 0)
        &&& cmd == Command::Left ==> pop_index(e.in_use_selected, e.in_use.len()) < e.in_use.len()
    }
}

/// The editor after a key press. In selection mode the keys move through the
/// topics on offer, move the chosen one into use, or switch to the topics in
/// use; otherwise they move through the topics in use, move the chosen one
/// back on offer, or switch back. Confirming changes nothing here.
pub open spec fn input_spec(e: EditorView, cmd: Command) -> EditorView {
    if e.selection_mode {
        match cmd {
            Command::Up => EditorView {
                offered_selected: Some(previous_index(e.offered_selected, e.offered.len())),
                ..e
            },
            Command::Down => EditorView {
                offered_selected: Some(next_index(e.offered_selected, e.offered.len())),
                ..e
            },
            Command::Right => {
                let k = pop_index(e.offered_selected, e.offered.len());
                EditorView { offered: e.offered.remove(k), in_use: e.in_use.push(e.offered[k]), ..e }
            },
            Command::RotateRight => EditorView { selection_mode: false, ..e },
            _ => e,
        }
    } else {
        match cmd {
            Command::Up => EditorView {
                in_use_selected: Some(previous_index(e.in_use_selected, e.in_use.len())),
                ..e
            },
            Command::Down => EditorView {
                in_use_selected: Some(next_index(e.in_use_selected, e.in_use.len())),
                ..e
            },
            Command::Left => {
                let k = pop_index(e.in_use_selected, e.in_use.len());
                EditorView { in_use: e.in_use.remove(k), offered: e.offered.push(e.in_use[k]), ..e }
            },
            Command::RotateLeft => EditorView { selection_mode: true, ..e },
            _ => e,
        }
    }
}

impl TopicManager {
    /// Whether `handle_input` can take this key press: moving down an empty
    /// list with a row selected, or moving a topic across with no row to
    /// take, cannot be handled.
    pub fn accepts(&self, cmd: Command) -> (r: bool)
        ensures
            r == input_allowed(self@, cmd),
    {
        let (list, across) = if self.selection_mode {
            (&self.availible_topics, Command::Right)
        } else {
            (&self.selected_topics, Command::Left)
        };
        if cmd == Command::Down {
            list.selected.is_none() || list.items.len() > 0
        } else if cmd == across {
            let k = match list.selected {
                Some(i) => if i == 0 {
                    list.items.len()
                } else {
                    i
                },
                None => 0,
            };
            k < list.items.len()
        } else {
            true
        }
    }

    /// Handles a key press; returns whether it asks for the topics in use to
    /// be saved, which confirming does in either mode.
    pub fn handle_input(&mut self, cmd: Command) -> (save: bool)
        requires
            input_allowed(old(self)@, cmd),
        ensures
            final(self)@ == input_spec(old(self)@, cmd),
            save == (cmd == Command::Confirm),
    {
        if self.selection_mode {
            match cmd {
                Command::Up => self.availible_topics.previous(),
                Command::Down => self.availible_topics.next(),
                Command::Right => self.shift_active_element_right(),
                Command::RotateRight => self.selection_mode = false,
                Command::Confirm => return true,
                _ => {},
            }
        } else {
            match cmd {
                Command::Up => self.selected_topics.previous(),
                Command::Down => self.selected_topics.next(),
                Command::Left => self.shift_active_element_left(),
                Command::RotateLeft => self.selection_mode = true,
                Command::Confirm => return true,
                _ => {},
            }
        }
        false
    }

    /// The topics in use, grouped by kind, each group in list order; topics
    /// of a type the viewer does not display are left out.
    pub fn save(&self) -> (r: TopicSelection)
        ensures
            forall|k: TopicKind| #[trigger]
                r.names(k) == names_of_kind(topics_view(self.selected_topics.items@), k),
    {
        let items = &self.selected_topics.items;
        let ghost all = topics_view(items@);
        let mut laser: Vec<String> = Vec::new();
        let mut marker_array: Vec<String> = Vec::new();
        let mut marker: Vec<String> = Vec::new();
        let mut pose_stamped: Vec<String> = Vec::new();
        let mut pose_array: Vec<String> = Vec::new();
        let mut path: Vec<String> = Vec::new();
        let mut i: usize = 0;
        while i < items.len()
            invariant
                i <= items.len(),
                all == topics_view(items@),
                names_view(laser@) == names_of_kind(all.subrange(0, i as int), TopicKind::LaserScan),
                names_view(marker_array@) == names_of_kind(
                    all.subrange(0, i as int),
                    TopicKind::MarkerArray,
                ),
                names_view(marker@) == names_of_kind(all.subrange(0, i as int), TopicKind::Marker),
                names_view(pose_stamped@) == names_of_kind(
                    all.subrange(0, i as int),
                    TopicKind::PoseStamped,
                ),
                names_view(pose_array@) == names_of_kind(
                    all.subrange(0, i as int),
                    TopicKind::PoseArray,
                ),
                names_view(path@) == names_of_kind(all.subrange(0, i as int), TopicKind::Path),
            decreases items.len() - i,
        {
            let ghost pre = all.subrange(0, i + 1);
            assert(pre.drop_last() =~= all.subrange(0, i as int));
            assert(pre.last() == topic_view(items@[i as int]));
            let t = &items[i];
            let name = t[0].clone();
            match TopicKind::from_message_type(&t[1]) {
                Some(TopicKind::LaserScan) => {
                    laser.push(name);
                    assert(names_view(laser@) =~= names_of_kind(pre, TopicKind::LaserScan));
                },
                Some(TopicKind::MarkerArray) => {
                    marker_array.push(name);
                    assert(names_view(marker_array@) =~= names_of_kind(pre, TopicKind::MarkerArray));
                },
                Some(TopicKind::Marker) => {
                    marker.push(name);
                    assert(names_view(marker@) =~= names_of_kind(pre, TopicKind::Marker));
                },
                Some(TopicKind::PoseStamped) => {
                    pose_stamped.push(name);
                    assert(names_view(pose_stamped@) =~= names_of_kind(pre, TopicKind::PoseStamped));
                },
                Some(TopicKind::PoseArray) => {
                    pose_array.push(name);
                    assert(names_view(pose_array@) =~= names_of_kind(pre, TopicKind::PoseArray));
                },
                Some(TopicKind::Path) => {
                    path.push(name);
                    assert(names_view(path@) =~= names_of_kind(pre, TopicKind::Path));
                },
                None => {},
            }
            i += 1;
        }
        assert(all.subrange(0, items.len() as int) =~= all);
        TopicSelection {
            laser_topics: laser,
            marker_array_topics: marker_array,
            marker_topics: marker,
            pose_stamped_topics: pose_stamped,
            pose_array_topics: pose_array,
            path_topics: path,
        }
    }
}

} // verus!
