//! Records of a saved workspace: its root paths, dock, pane tree and items,
//! and the text forms in which the small enums are stored.

use vstd::prelude::*;
use vstd::utf8::encode_utf8;

verus! {

/// Why a stored value could not be read back.
#[derive(Debug, Clone, Copy, PartialEq, Eq, Structural)]
pub enum StoredValueError {
    /// The stored text names no dock anchor.
    UnknownDockAnchor,
    /// The stored text names no axis.
    UnknownAxis,
    /// The stored text names no item kind.
    UnknownItemKind,
    /// The stored bytes hold no list of paths.
    UnreadablePaths,
}

/// The set of root paths that identifies a workspace.
#[derive(Debug, Clone, PartialEq, Eq)]
pub struct WorkspaceId(Vec<String>);

pub open spec fn texts_of(v: Seq<String>) -> Seq<Seq<char>> {
    v.map_values(|s: String| s@)
}

/// How std orders two paths, by their components: negative, zero or
/// positive as the first comes before, with or after the second.
pub uninterp spec fn path_order(a: Seq<char>, b: Seq<char>) -> int;

/// Whether each path sorts at or before the next.
pub open spec fn paths_sorted(s: Seq<Seq<char>>) -> bool {
    forall|i: int| 0 <= i < s.len() - 1 ==> path_order(#[trigger] s[i], s[i + 1]) <= 0
}

/// A number as eight bytes, least significant first.
pub open spec fn u64_le(n: int) -> Seq<u8> {
    seq![
        (n % 0x100) as u8,
        (n / 0x100 % 0x100) as u8,
        (n / 0x10000 % 0x100) as u8,
        (n / 0x1000000 % 0x100) as u8,
        (n / 0x100000000 % 0x100) as u8,
        (n / 0x10000000000 % 0x100) as u8,
        (n / 0x1000000000000 % 0x100) as u8,
        (n / 0x100000000000000 % 0x100) as u8,
    ]
}

/// Each string as its length in bytes, then its UTF-8 bytes.
pub open spec fn encoded_strings(texts: Seq<Seq<char>>) -> Seq<u8>
    decreases texts.len(),
{
    if texts.len() == 0 {
        seq![]
    } else {
        encoded_strings(texts.drop_last()) + u64_le(encode_utf8(texts.last()).len() as int)
            + encode_utf8(texts.last())
    }
}

/// A list of strings in bincode's default format: the count, then each
/// string.
pub open spec fn bincode_of_texts(texts: Seq<Seq<char>>) -> Seq<u8> {
    u64_le(texts.len() as int) + encoded_strings(texts)
}

/// What `bincode::deserialize` reads from bytes as a list of strings, or
/// `None` where it fails.
pub uninterp spec fn texts_from_bincode(bytes: Seq<u8>) -> Option<Seq<Seq<char>>>;

/// Relies on `Ord for Path` of std, which compares paths component by
/// component: the result depends on the two strings alone, and swapping
/// them reverses it, as `Ord` requires of a total order.
#[verifier::external_body]
fn compare_paths(a: &String, b: &String) -> (r: i8)
    ensures
        r as int == path_order(a@, b@),
        path_order(b@, a@) == -(r as int),
{
    match std::path::Path::new(a.as_str()).cmp(std::path::Path::new(b.as_str())) {
        std::cmp::Ordering::Less => -1,
        std::cmp::Ordering::Equal => 0,
        std::cmp::Ordering::Greater => 1,
    }
}

/// The same paths, sorted as std sorts paths.
fn sort_paths(paths: &Vec<String>) -> (r: Vec<String>)
    ensures
        texts_of(r@).to_multiset() == texts_of(paths@).to_multiset(),
        paths_sorted(texts_of(r@)),
{
    broadcast use vstd::seq_lib::group_to_multiset_ensures;

    let mut sorted: Vec<String> = Vec::new();
    let mut k: usize = 0;
    while k < paths.len()
        invariant
            k <= paths@.len(),
            texts_of(sorted@).to_multiset() == texts_of(paths@.subrange(0, k as int)).to_multiset(),
            paths_sorted(texts_of(sorted@)),
        decreases paths@.len() - k,
    {
        let x = paths[k].clone();
        let mut j: usize = sorted.len();
        while j > 0 && compare_paths(&x, &sorted[j - 1]) < 0
            invariant
                j <= sorted@.len(),
                j < sorted@.len() ==> path_order(x@, sorted@[j as int]@) < 0,
            decreases j,
        {
            j = j - 1;
        }
        let ghost before = sorted@;
        proof {
            if j > 0 {
                // the loop stopped on a path that does not sort after `x`
                assert(path_order(sorted@[j - 1]@, x@) <= 0);
            }
        }
        sorted.insert(j, x);
        proof {
            assert(texts_of(sorted@) =~= texts_of(before).insert(j as int, x@));
            vstd::seq_lib::to_multiset_insert(texts_of(before), j as int, x@);
            assert(x@ == paths@[k as int]@);
            let prefix = texts_of(paths@.subrange(0, k as int));
            assert(texts_of(paths@.subrange(0, k + 1)) =~= prefix.push(x@));
            prefix.to_multiset_ensures();
            assert forall|i: int| 0 <= i < texts_of(sorted@).len() - 1 implies path_order(
                #[trigger] texts_of(sorted@)[i],
                texts_of(sorted@)[i + 1],
            ) <= 0 by {
                if i < j - 1 {
                    assert(path_order(texts_of(before)[i], texts_of(before)[i + 1]) <= 0);
                } else if i > j {
                    assert(path_order(texts_of(before)[i - 1], texts_of(before)[i]) <= 0);
                }
            }
        }
        k = k + 1;
    }
    proof {
        assert(paths@.subrange(0, paths@.len() as int) =~= paths@);
    }
    sorted
}

/// Relies on `bincode::serialize` with its default options: lengths as
/// eight little-endian bytes, a string as its length and its UTF-8 bytes, a
/// sequence as its length and its items. With no size limit and a length
/// that a `Vec` always gives, a list of strings never fails to encode.
#[verifier::external_body]
fn encode_texts(v: &Vec<String>) -> (r: Option<Vec<u8>>)
    ensures
        r is Some,
        r->0@ == bincode_of_texts(texts_of(v@)),
{
    bincode::serialize(v).ok()
}

/// Relies on `bincode::deserialize`: what it reads depends on the bytes alone.
#[verifier::external_body]
fn decode_texts(b: &[u8]) -> (r: Option<Vec<String>>)
    ensures
        match r {
            Some(v) => texts_from_bincode(b@) == Some(texts_of(v@)),
            None => texts_from_bincode(b@) is None,
        },
{
    bincode::deserialize::<Vec<String>>(b).ok()
}

impl View for WorkspaceId {
    type V = Seq<Seq<char>>;

    closed spec fn view(&self) -> Seq<Seq<char>> {
        texts_of(self.0@)
    }
}

impl WorkspaceId {
    /// The identifier of the workspace with these roots, sorted as paths.
    pub fn from_paths(paths: Vec<String>) -> (r: WorkspaceId)
        ensures
            r@.to_multiset() == texts_of(paths@).to_multiset(),
            paths_sorted(r@),
    {
        WorkspaceId(sort_paths(&paths))
    }

    pub fn paths(self) -> (r: Vec<String>)
        ensures
            texts_of(r@) == self@,
    {
        self.0
    }

    /// The bytes under which the identifier is stored.
    pub fn to_blob(&self) -> (r: Vec<u8>)
        ensures
            r@ == bincode_of_texts(self@),
    {
        match encode_texts(&self.0) {
            Some(bytes) => bytes,
            None => Vec::new(),
        }
    }

    /// Reads an identifier back from its stored bytes.
    pub fn from_blob(blob: &[u8]) -> (r: Result<WorkspaceId, StoredValueError>)
        ensures
            match r {
                Ok(id) => texts_from_bincode(blob@) == Some(id@),
                Err(e) => texts_from_bincode(blob@) is None && e
                    == StoredValueError::UnreadablePaths,
            },
    {
        match decode_texts(blob) {
            Some(paths) => Ok(WorkspaceId(paths)),
            None => Err(StoredValueError::UnreadablePaths),
        }
    }
}

#[derive(Debug, Clone, Copy, PartialEq, Eq, Structural)]
pub enum DockAnchor {
    Bottom,
    Right,
    Expanded,
}

pub open spec fn dock_anchor_text(a: DockAnchor) -> Seq<char> {
    match a {
        DockAnchor::Bottom => "Bottom"@,
        DockAnchor::Right => "Right"@,
        DockAnchor::Expanded => "Expanded"@,
    }
}

pub open spec fn dock_anchor_from_text(t: Seq<char>) -> Option<DockAnchor> {
    if t == "Bottom"@ {
        Some(DockAnchor::Bottom)
    } else if t == "Right"@ {
        Some(DockAnchor::Right)
    } else if t == "Expanded"@ {
        Some(DockAnchor::Expanded)
    } else {
        None
    }
}

/// Reading back the text under which an anchor is stored gives that anchor.
pub proof fn lemma_dock_anchor_text_round_trip(a: DockAnchor)
    ensures
        dock_anchor_from_text(dock_anchor_text(a)) == Some(a),
{
    reveal_strlit("Bottom");
    reveal_strlit("Right");
    reveal_strlit("Expanded");
    assert("Bottom"@.len() == 6 && "Right"@.len() == 5 && "Expanded"@.len() == 8);
}

impl Default for DockAnchor {
    fn default() -> (r: Self)
        ensures
            r == DockAnchor::Bottom,
    {
        DockAnchor::Bottom
    }
}

impl DockAnchor {
    /// The text under which the anchor is stored.
    pub fn as_text(&self) -> (r: &'static str)
        ensures
            r@ == dock_anchor_text(*self),
    {
        match self {
            DockAnchor::Bottom => "Bottom",
            DockAnchor::Right => "Right",
            DockAnchor::Expanded => "Expanded",
        }
    }

    /// Reads an anchor back from its stored text.
    pub fn from_text(text: &String) -> (r: Result<DockAnchor, StoredValueError>)
        ensures
            match r {
                Ok(a) => dock_anchor_from_text(text@) == Some(a),
                Err(e) => dock_anchor_from_text(text@) is None && e
                    == StoredValueError::UnknownDockAnchor,
            },
    {
        if text_is(text, "Bottom") {
            Ok(DockAnchor::Bottom)
        } else if text_is(text, "Right") {
            Ok(DockAnchor::Right)
        } else if text_is(text, "Expanded") {
            Ok(DockAnchor::Expanded)
        } else {
            Err(StoredValueError::UnknownDockAnchor)
        }
    }
}

#[derive(Debug, Clone, Copy, PartialEq, Eq, Structural)]
pub enum Axis {
    Horizontal,
    Vertical,
}

pub open spec fn axis_text(a: Axis) -> Seq<char> {
    match a {
        Axis::Horizontal => "Horizontal"@,
        Axis::Vertical => "Vertical"@,
    }
}

pub open spec fn axis_from_text(t: Seq<char>) -> Option<Axis> {
    if t == "Horizontal"@ {
        Some(Axis::Horizontal)
    } else if t == "Vertical"@ {
        Some(Axis::Vertical)
    } else {
        None
    }
}

/// Reading back the text under which an axis is stored gives that axis.
pub proof fn lemma_axis_text_round_trip(a: Axis)
    ensures
        axis_from_text(axis_text(a)) == Some(a),
{
    reveal_strlit("Horizontal");
    reveal_strlit("Vertical");
    assert("Horizontal"@.len() == 10 && "Vertical"@.len() == 8);
}

impl Default for Axis {
    fn default() -> (r: Self)
        ensures
            r == Axis::Horizontal,
    {
        Axis::Horizontal
    }
}

impl Axis {
    /// The text under which the axis is stored.
    pub fn as_text(&self) -> (r: &'static str)
        ensures
            r@ == axis_text(*self),
    {
        match self {
            Axis::Horizontal => "Horizontal",
            Axis::Vertical => "Vertical",
        }
    }

    /// Reads an axis back from its stored text.
    pub fn from_text(text: &String) -> (r: Result<Axis, StoredValueError>)
        ensures
            match r {
                Ok(a) => axis_from_text(text@) == Some(a),
                Err(e) => axis_from_text(text@) is None && e == StoredValueError::UnknownAxis,
            },
    {
        if text_is(text, "Horizontal") {
            Ok(Axis::Horizontal)
        } else if text_is(text, "Vertical") {
            Ok(Axis::Vertical)
        } else {
            Err(StoredValueError::UnknownAxis)
        }
    }
}

/// A stored workspace row: its identifier, its dock anchor and whether the
/// dock is visible.
pub type WorkspaceRow = (WorkspaceId, DockAnchor, bool);

pub type GroupId = i64;

pub type PaneId = i64;

pub type ItemId = usize;

/// An item open in a pane, as it is saved.
#[derive(Debug, Clone, PartialEq, Eq)]
pub enum SerializedItem {
    Editor { item_id: usize, path: String },
    Diagnostics { item_id: usize },
    ProjectSearch { item_id: usize, query: String },
    Terminal { item_id: usize },
}

/// The kind of a saved item, without its data.
#[derive(Debug, Clone, Copy, PartialEq, Eq, Structural)]
pub enum SerializedItemKind {
    Editor,
    Diagnostics,
    ProjectSearch,
    Terminal,
}

pub open spec fn item_id_of(item: SerializedItem) -> usize {
    match item {
        SerializedItem::Editor { item_id, .. } => item_id,
        SerializedItem::Diagnostics { item_id } => item_id,
        SerializedItem::ProjectSearch { item_id, .. } => item_id,
        SerializedItem::Terminal { item_id } => item_id,
    }
}

pub open spec fn kind_of(item: SerializedItem) -> SerializedItemKind {
    match item {
        SerializedItem::Editor { .. } => SerializedItemKind::Editor,
        SerializedItem::Diagnostics { .. } => SerializedItemKind::Diagnostics,
        SerializedItem::ProjectSearch { .. } => SerializedItemKind::ProjectSearch,
        SerializedItem::Terminal { .. } => SerializedItemKind::Terminal,
    }
}

impl SerializedItem {
    pub fn item_id(&self) -> (r: usize)
        ensures
            r == item_id_of(*self),
    {
        match self {
            SerializedItem::Editor { item_id, .. } => *item_id,
            SerializedItem::Diagnostics { item_id } => *item_id,
            SerializedItem::ProjectSearch { item_id, .. } => *item_id,
            SerializedItem::Terminal { item_id } => *item_id,
        }
    }

    pub fn kind(&self) -> (r: SerializedItemKind)
        ensures
            r == kind_of(*self),
    {
        match self {
            SerializedItem::Editor { .. } => SerializedItemKind::Editor,
            SerializedItem::Diagnostics { .. } => SerializedItemKind::Diagnostics,
            SerializedItem::ProjectSearch { .. } => SerializedItemKind::ProjectSearch,
            SerializedItem::Terminal { .. } => SerializedItemKind::Terminal,
        }
    }
}

pub open spec fn item_kind_text(k: SerializedItemKind) -> Seq<char> {
    match k {
        SerializedItemKind::Editor => "Editor"@,
        SerializedItemKind::Diagnostics => "Diagnostics"@,
        SerializedItemKind::ProjectSearch => "ProjectSearch"@,
        SerializedItemKind::Terminal => "Terminal"@,
    }
}

pub open spec fn item_kind_from_text(t: Seq<char>) -> Option<SerializedItemKind> {
    if t == "Editor"@ {
        Some(SerializedItemKind::Editor)
    } else if t == "Diagnostics"@ {
        Some(SerializedItemKind::Diagnostics)
    } else if t == "ProjectSearch"@ {
        Some(SerializedItemKind::ProjectSearch)
    } else if t == "Terminal"@ {
        Some(SerializedItemKind::Terminal)
    } else {
        None
    }
}

/// Reading back the text under which an item kind is stored gives that kind.
pub proof fn lemma_item_kind_text_round_trip(k: SerializedItemKind)
    ensures
        item_kind_from_text(item_kind_text(k)) == Some(k),
{
    reveal_strlit("Editor");
    reveal_strlit("Diagnostics");
    reveal_strlit("ProjectSearch");
    reveal_strlit("Terminal");
    assert("Editor"@.len() == 6 && "Diagnostics"@.len() == 11 && "ProjectSearch"@.len() == 13
        && "Terminal"@.len() == 8);
}

impl SerializedItemKind {
    /// The text under which the kind is stored.
    pub fn as_text(&self) -> (r: &'static str)
        ensures
            r@ == item_kind_text(*self),
    {
        match self {
            SerializedItemKind::Editor => "Editor",
            SerializedItemKind::Diagnostics => "Diagnostics",
            SerializedItemKind::ProjectSearch => "ProjectSearch",
            SerializedItemKind::Terminal => "Terminal",
        }
    }

    /// Reads a kind back from its stored text.
    pub fn from_text(text: &String) -> (r: Result<SerializedItemKind, StoredValueError>)
        ensures
            match r {
                Ok(k) => item_kind_from_text(text@) == Some(k),
                Err(e) => item_kind_from_text(text@) is None && e
                    == StoredValueError::UnknownItemKind,
            },
    {
        if text_is(text, "Editor") {
            Ok(SerializedItemKind::Editor)
        } else if text_is(text, "Diagnostics") {
            Ok(SerializedItemKind::Diagnostics)
        } else if text_is(text, "ProjectSearch") {
            Ok(SerializedItemKind::ProjectSearch)
        } else if text_is(text, "Terminal") {
            Ok(SerializedItemKind::Terminal)
        } else {
            Err(StoredValueError::UnknownItemKind)
        }
    }
}

/// The items of one pane, in tab order.
#[derive(Debug, Clone, PartialEq, Eq)]
pub struct SerializedPane {
    pub children: Vec<SerializedItem>,
}

impl Default for SerializedPane {
    fn default() -> (r: Self)
        ensures
            r.children@.len() == 0,
    {
        SerializedPane { children: Vec::new() }
    }
}

impl SerializedPane {
    pub fn new(children: Vec<SerializedItem>) -> (r: Self)
        ensures
            r.children@ == children@,
    {
        SerializedPane { children }
    }
}

/// The tree of panes of a workspace's center.
#[derive(Debug, PartialEq, Eq)]
pub enum SerializedPaneGroup {
    Group { axis: Axis, children: Vec<SerializedPaneGroup> },
    Pane(SerializedPane),
}

impl Default for SerializedPaneGroup {
    /// A horizontal group that holds one empty pane.
    fn default() -> (r: Self)
        ensures
            r is Group,
            r->Group_axis == Axis::Horizontal,
            r->Group_children@.len() == 1,
            r->Group_children@[0] is Pane,
            r->Group_children@[0]->Pane_0.children@.len() == 0,
    {
        let mut children: Vec<SerializedPaneGroup> = Vec::new();
        children.push(SerializedPaneGroup::Pane(SerializedPane::default()));
        SerializedPaneGroup::Group { axis: Axis::Horizontal, children }
    }
}

#[derive(Debug, PartialEq, Eq)]
pub struct SerializedWorkspace {
    pub dock_anchor: DockAnchor,
    pub dock_visible: bool,
    pub center_group: SerializedPaneGroup,
    pub dock_pane: SerializedPane,
}

/// Whether a string holds exactly the characters of a literal.
fn text_is(text: &String, expected: &str) -> (r: bool)
    ensures
        r == (text@ == expected@),
{
    let owned = expected.to_owned();
    text.eq(&owned)
}

} // verus!
