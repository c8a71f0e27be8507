//! Node-facing base types: named input collections, node errors, and the
//! presentation metadata every node carries for the (unverified) editor.
use vstd::prelude::*;

use crate::input_output_value::InputOutputValue;
use crate::pixel::Pixel;

verus! {

/// Presentation metadata (screen position, size, display name) read only by
/// the editor layer; evaluation never consults it.
#[derive(Debug)]
pub struct SpaceInfo {
    pub position: (i64, i64),
    pub size: (u32, u32),
    pub color: Pixel,
    pub name: String,
    pub z_index: usize,
}

impl SpaceInfo {
    pub fn new() -> (s: SpaceInfo)
        ensures
            s.position.0 == 100 && s.position.1 == 100,
            s.size.0 == 100 && s.size.1 == 100,
            s.z_index == 0,
    {
        SpaceInfo {
            position: (100, 100),
            size: (100, 100),
            color: Pixel { r: 255, g: 100, b: 0, a: 255 },
            name: String::new(),
            z_index: 0,
        }
    }
}

impl Default for SpaceInfo {
    fn default() -> (s: SpaceInfo)
        ensures
            s.position.0 == 100 && s.position.1 == 100,
            s.size.0 == 100 && s.size.1 == 100,
    {
        SpaceInfo::new()
    }
}

/// The name a link carries into its consumer.  A link added without a name
/// gets a synthetic `Auto` name from a per-generator counter, which can never
/// collide with a user-supplied `Named` name.
#[derive(Debug, Clone)]
pub enum InputName {
    Named(String),
    Auto(u64),
}

/// The mathematical form of an input name.
pub enum NameView {
    Named(Seq<char>),
    Auto(u64),
}

impl View for InputName {
    type V = NameView;

    open spec fn view(&self) -> NameView {
        match self {
            InputName::Named(s) => NameView::Named(s@),
            InputName::Auto(n) => NameView::Auto(*n),
        }
    }
}

impl PartialEq for InputName {
    fn eq(&self, other: &InputName) -> (r: bool) {
        match (self, other) {
            (InputName::Named(a), InputName::Named(b)) => *a == *b,
            (InputName::Auto(a), InputName::Auto(b)) => *a == *b,
            _ => false,
        }
    }
}

impl Eq for InputName {}

impl InputName {
    /// A copy with the same name; `Named` names clone their text.
    pub fn duplicate(&self) -> (r: InputName)
        ensures
            r@ == self@,
    {
        match self {
            InputName::Named(s) => InputName::Named(s.clone()),
            InputName::Auto(n) => InputName::Auto(*n),
        }
    }
}

impl vstd::std_specs::cmp::PartialEqSpecImpl for InputName {
    open spec fn obeys_eq_spec() -> bool {
        true
    }

    open spec fn eq_spec(&self, other: &InputName) -> bool {
        self@ == other@
    }
}

/// What a node evaluation can reject: these are configuration errors of the
/// graph, reported with enough context to fix it, never silently defaulted.
#[derive(Debug, Clone, PartialEq)]
pub enum NodeError {
    /// A required named operand is absent.
    MissingInput(String),
    /// The node was handed the wrong number of inputs.
    WrongInputCount { expected: usize, got: usize },
    /// A blend factor was not a scalar-like variant.
    InvalidFactor,
}

/// The mathematical form of a node error.
pub enum NodeErrorView {
    MissingInput(Seq<char>),
    WrongInputCount(int, int),
    InvalidFactor,
}

impl View for NodeError {
    type V = NodeErrorView;

    open spec fn view(&self) -> NodeErrorView {
        match self {
            NodeError::MissingInput(s) => NodeErrorView::MissingInput(s@),
            NodeError::WrongInputCount { expected, got } => NodeErrorView::WrongInputCount(
                *expected as int,
                *got as int,
            ),
            NodeError::InvalidFactor => NodeErrorView::InvalidFactor,
        }
    }
}

/// The mapping from input name to value a node receives when it is
/// evaluated.  Later insertions under an existing name replace the earlier
/// value, so the last writer wins, deterministically.
#[derive(Debug, Clone)]
pub struct NamedValues {
    entries: Vec<(InputName, InputOutputValue)>,
}

/// Folds an entry list into a map; later entries override earlier ones.
pub open spec fn entries_map(s: Seq<(InputName, InputOutputValue)>) -> Map<
    NameView,
    InputOutputValue,
>
    decreases s.len(),
{
    if s.len() == 0 {
        Map::empty()
    } else {
        entries_map(s.drop_last()).insert(s.last().0@, s.last().1)
    }
}

/// Entry names are pairwise distinct.
pub open spec fn entries_uniq(s: Seq<(InputName, InputOutputValue)>) -> bool {
    forall|i: int, j: int| 0 <= i < j < s.len() ==> s[i].0@ != s[j].0@
}

/// The fold's domain is exactly the entry names, it is finite, and under
/// distinct names its size is the entry count.
pub proof fn lemma_entries_map_props(s: Seq<(InputName, InputOutputValue)>)
    ensures
        entries_map(s).dom().finite(),
        forall|k: NameView|
            entries_map(s).dom().contains(k) <==> exists|j: int| 0 <= j < s.len() && s[j].0@ == k,
        entries_uniq(s) ==> entries_map(s).dom().len() == s.len(),
    decreases s.len(),
{
    if s.len() == 0 {
    } else {
        let t = s.drop_last();
        lemma_entries_map_props(t);
        assert(forall|j: int| 0 <= j < t.len() ==> #[trigger] t[j] == s[j]);
        assert forall|k: NameView| entries_map(s).dom().contains(k) implies exists|j: int|
            0 <= j < s.len() && s[j].0@ == k by {
            if k == s.last().0@ {
                assert(s[s.len() - 1].0@ == k);
            } else {
                assert(entries_map(t).dom().contains(k));
                let j = choose|j: int| 0 <= j < t.len() && t[j].0@ == k;
                assert(s[j].0@ == k);
            }
        }
        assert forall|k: NameView| (exists|j: int| 0 <= j < s.len() && s[j].0@ == k) implies
            entries_map(s).dom().contains(k) by {
            let j = choose|j: int| 0 <= j < s.len() && s[j].0@ == k;
            if j < s.len() - 1 {
                assert(t[j].0@ == k);
                assert(entries_map(t).dom().contains(k));
            }
        }
        if entries_uniq(s) {
            assert(entries_uniq(t));
            assert(forall|j: int| 0 <= j < t.len() ==> #[trigger] t[j].0@ != s.last().0@);
            assert(!entries_map(t).dom().contains(s.last().0@));
        }
    }
}

/// If no entry at position `i` or beyond carries key `k`, the fold agrees at
/// `k` with the fold of the first `i` entries.
pub proof fn lemma_entries_map_prefix(
    s: Seq<(InputName, InputOutputValue)>,
    i: int,
    k: NameView,
)
    requires
        0 <= i <= s.len(),
        forall|j: int| i <= j < s.len() ==> s[j].0@ != k,
    ensures
        entries_map(s).dom().contains(k) == entries_map(s.take(i)).dom().contains(k),
        entries_map(s).dom().contains(k) ==> entries_map(s)[k] == entries_map(s.take(i))[k],
    decreases s.len() - i,
{
    if i == s.len() {
        assert(s.take(i) =~= s);
    } else {
        lemma_entries_map_prefix(s, i + 1, k);
        assert(s.take(i + 1).drop_last() =~= s.take(i));
        assert(entries_map(s.take(i + 1)) == entries_map(s.take(i)).insert(
            s[i].0@,
            s[i].1,
        ));
    }
}

impl View for NamedValues {
    type V = Map<NameView, InputOutputValue>;

    closed spec fn view(&self) -> Map<NameView, InputOutputValue> {
        entries_map(self.entries@)
    }
}

impl NamedValues {
    /// Entry names are pairwise distinct; every value of this type satisfies
    /// it, and then the entry count equals the mapping's size.
    pub closed spec fn wf(&self) -> bool {
        entries_uniq(self.entries@)
    }

    pub fn new() -> (r: NamedValues)
        ensures
            r@ == Map::<NameView, InputOutputValue>::empty(),
            r.wf(),
    {
        NamedValues { entries: Vec::new() }
    }

    /// The number of distinct named inputs.
    pub fn len(&self) -> (n: usize)
        requires
            self.wf(),
        ensures
            n == self@.dom().len(),
    {
        proof {
            lemma_entries_map_props(self.entries@);
        }
        self.entries.len()
    }

    /// The sole value, for nodes taking exactly one input of any name;
    /// `None` unless there is exactly one binding.
    pub fn single(&self) -> (r: Option<InputOutputValue>)
        requires
            self.wf(),
        ensures
            self@.dom().len() == 1 ==> r == Some(self@[self@.dom().choose()]),
            self@.dom().len() != 1 ==> r is None,
    {
        proof {
            lemma_entries_map_props(self.entries@);
        }
        if self.entries.len() == 1 {
            proof {
                let s = self.entries@;
                assert(s.drop_last().len() == 0);
                assert(entries_map(s) == entries_map(s.drop_last()).insert(s.last().0@, s.last().1));
                let c = self@.dom().choose();
                assert(self@.dom().contains(c));
                assert(c == s.last().0@);
                assert(s.last() == s[0]);
            }
            Some(self.entries[0].1)
        } else {
            None
        }
    }

    /// Looks a name up; `None` exactly when the name is absent.
    pub fn get(&self, name: &InputName) -> (r: Option<InputOutputValue>)
        ensures
            match r {
                Some(v) => self@.dom().contains(name@) && v == self@[name@],
                None => !self@.dom().contains(name@),
            },
    {
        let ghost s = self.entries@;
        let mut i: usize = self.entries.len();
        while i > 0
            invariant
                i <= s.len(),
                s == self.entries@,
                forall|j: int| i <= j < s.len() ==> s[j].0@ != name@,
            decreases i,
        {
            i = i - 1;
            if self.entries[i].0 == *name {
                proof {
                    lemma_entries_map_prefix(s, i + 1, name@);
                    assert(s.take(i + 1).drop_last() =~= s.take(i as int));
                    assert(s.take(i + 1).last() == s[i as int]);
                }
                return Some(self.entries[i].1);
            }
        }
        proof {
            lemma_entries_map_prefix(s, 0, name@);
            assert(s.take(0) =~= Seq::<(InputName, InputOutputValue)>::empty());
        }
        None
    }

    /// Binds `name` to `v`, replacing any earlier binding of the same name:
    /// the last insertion wins.
    pub fn insert(&mut self, name: InputName, v: InputOutputValue)
        requires
            old(self).wf(),
        ensures
            final(self)@ == old(self)@.insert(name@, v),
            final(self).wf(),
    {
        let ghost s0 = self.entries@;
        // Find any existing binding of this name; names are pairwise
        // distinct, so there is at most one.
        let sentinel: usize = self.entries.len();
        let mut idx: usize = sentinel;
        let mut i: usize = 0;
        while i < self.entries.len()
            invariant
                i <= s0.len(),
                self.entries@ == s0,
                sentinel == s0.len(),
                idx == sentinel || (idx < i && s0[idx as int].0@ == name@),
                idx == sentinel ==> forall|j: int| 0 <= j < i ==> s0[j].0@ != name@,
            decreases s0.len() - i,
        {
            if idx == sentinel && self.entries[i].0 == name {
                idx = i;
            }
            i = i + 1;
        }
        // Drop it, so names stay pairwise distinct after the push.
        let ghost pre = if idx < s0.len() {
            s0.remove(idx as int)
        } else {
            s0
        };
        if idx < self.entries.len() {
            proof {
                assert(forall|l: int| 0 <= l < s0.len() && s0[l].0@ == name@ ==> l == idx);
                lemma_entries_map_remove(s0, idx as int, name@);
            }
            self.entries.remove(idx);
        }
        proof {
            assert(self.entries@ == pre);
            assert(forall|l: int| 0 <= l < pre.len() ==> pre[l].0@ != name@);
            assert(entries_uniq(pre));
        }
        self.entries.push((name, v));
        proof {
            assert(self.entries@.drop_last() =~= pre);
            assert(entries_map(self.entries@) == entries_map(pre).insert(name@, v));
            if idx < s0.len() {
                assert(entries_map(pre) == entries_map(s0).remove(name@));
                assert(entries_map(s0).remove(name@).insert(name@, v) =~= entries_map(s0).insert(
                    name@,
                    v,
                ));
            }
            assert(self@ =~= old(self)@.insert(name@, v));
        }
    }
}

/// Removing the sole entry carrying key `k` leaves the fold unchanged at
/// every other key and drops `k` from its domain.
pub proof fn lemma_entries_map_remove(s: Seq<(InputName, InputOutputValue)>, j: int, k: NameView)
    requires
        0 <= j < s.len(),
        s[j].0@ == k,
        forall|l: int| 0 <= l < s.len() && s[l].0@ == k ==> l == j,
    ensures
        entries_map(s.remove(j)) == entries_map(s).remove(k),
    decreases s.len(),
{
    if j == s.len() - 1 {
        assert(s.remove(j) =~= s.drop_last());
        assert(entries_map(s) == entries_map(s.drop_last()).insert(k, s.last().1));
        assert(forall|l: int| 0 <= l < s.drop_last().len() ==> #[trigger] s.drop_last()[l].0@ != k);
        lemma_entries_map_no_key(s.drop_last(), k);
        assert(entries_map(s.remove(j)) =~= entries_map(s).remove(k));
    } else {
        let t = s.drop_last();
        lemma_entries_map_remove(t, j, k);
        assert(s.remove(j).drop_last() =~= t.remove(j));
        assert(s.remove(j).last() == s.last());
        assert(entries_map(s.remove(j)) == entries_map(t.remove(j)).insert(s.last().0@, s.last().1));
        assert(entries_map(s) == entries_map(t).insert(s.last().0@, s.last().1));
        assert(s.last().0@ != k);
        assert(entries_map(s.remove(j)) =~= entries_map(s).remove(k));
    }
}

/// A fold over entries none of which carry key `k` does not contain `k`.
pub proof fn lemma_entries_map_no_key(s: Seq<(InputName, InputOutputValue)>, k: NameView)
    requires
        forall|l: int| 0 <= l < s.len() ==> s[l].0@ != k,
    ensures
        !entries_map(s).dom().contains(k),
    decreases s.len(),
{
    if s.len() > 0 {
        lemma_entries_map_no_key(s.drop_last(), k);
    }
}


/// A node result with its error taken to mathematical form.
pub open spec fn result_view(r: Result<InputOutputValue, NodeError>) -> Result<
    InputOutputValue,
    NodeErrorView,
> {
    match r {
        Ok(v) => Ok(v),
        Err(e) => Err(e@),
    }
}


impl NodeError {
    /// A copy carrying the same error; the missing-input name clones its
    /// text.
    pub fn duplicate(&self) -> (r: NodeError)
        ensures
            r@ == self@,
    {
        match self {
            NodeError::MissingInput(s) => NodeError::MissingInput(s.clone()),
            NodeError::WrongInputCount { expected, got } => NodeError::WrongInputCount {
                expected: *expected,
                got: *got,
            },
            NodeError::InvalidFactor => NodeError::InvalidFactor,
        }
    }
}

} // verus!
