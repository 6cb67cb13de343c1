//! The state that every part of the daemon shares: which reaction stands
//! for which role, and the handle by which the verbosity of the log is
//! changed while the daemon runs.
use crate::ids::{
    AI_ROLE_ID, ARCHIVE_ROLE_ID, DEVOPS_ROLE_ID, MOBILE_ROLE_ID, RESEARCH_ROLE_ID, SYSTEMS_ROLE_ID,
    WEB_ROLE_ID,
};
use vstd::prelude::*;

verus! {

/// The lock of `tokio` that guards the log handle. Nothing is known of what
/// it holds.
#[verifier::external_type_specification]
#[verifier::external_body]
#[verifier::reject_recursive_types(T)]
pub struct ExRwLock<T: ?Sized>(tokio::sync::RwLock<T>);

/// The handle of `tracing_subscriber` by which a layer is replaced.
#[verifier::external_type_specification]
#[verifier::external_body]
#[verifier::reject_recursive_types(L)]
#[verifier::reject_recursive_types(S)]
pub struct ExHandle<L, S>(tracing_subscriber::reload::Handle<L, S>);

/// The filter of `tracing_subscriber` that is built from directives.
#[verifier::external_type_specification]
#[verifier::external_body]
pub struct ExEnvFilter(tracing_subscriber::EnvFilter);

/// The subscriber of `tracing_subscriber` that the layers sit on.
#[verifier::external_type_specification]
#[verifier::external_body]
pub struct ExRegistry(tracing_subscriber::Registry);

/// The handle by which the verbosity of the log is changed, shared and
/// guarded by a lock.
pub type ReloadHandle = std::sync::Arc<
    tokio::sync::RwLock<
        tracing_subscriber::reload::Handle<
            tracing_subscriber::EnvFilter,
            tracing_subscriber::Registry,
        >,
    >,
>;

/// What a member reacts with.
#[derive(Clone, Debug, PartialEq, Eq)]
pub enum ReactionType {
    /// An emoji of a guild's own.
    Custom { animated: bool, id: u64, name: Option<String> },
    /// An emoji of Unicode, by its characters.
    Unicode(String),
}

/// A reaction as a plain value.
pub enum ReactionKey {
    Custom { animated: bool, id: u64, name: Option<Seq<char>> },
    Unicode(Seq<char>),
}

impl View for ReactionType {
    type V = ReactionKey;

    open spec fn view(&self) -> ReactionKey {
        match self {
            ReactionType::Custom { animated, id, name } => ReactionKey::Custom {
                animated: *animated,
                id: *id,
                name: match name {
                    Some(text) => Some(text@),
                    None => None,
                },
            },
            ReactionType::Unicode(text) => ReactionKey::Unicode(text@),
        }
    }
}

impl ReactionType {
    /// The Unicode emoji with the given characters.
    pub fn unicode(text: &str) -> (r: ReactionType)
        ensures
            r@ == ReactionKey::Unicode(text@),
    {
        ReactionType::Unicode(String::from_str(text))
    }

    /// Whether two reactions are the same: of the same kind, with the same
    /// characters or the same flag, identifier and name.
    pub fn same(&self, other: &ReactionType) -> (b: bool)
        ensures
            b == (self@ == other@),
    {
        match (self, other) {
            (ReactionType::Unicode(a), ReactionType::Unicode(b)) => *a == *b,
            (
                ReactionType::Custom { animated: a1, id: i1, name: n1 },
                ReactionType::Custom { animated: a2, id: i2, name: n2 },
            ) => {
                let names = match (n1, n2) {
                    (Some(x), Some(y)) => *x == *y,
                    (None, None) => true,
                    _ => false,
                };
                *a1 == *a2 && *i1 == *i2 && names
            },
            _ => false,
        }
    }
}

/// No reaction occurs twice among the entries.
pub open spec fn distinct_reactions(entries: Seq<(ReactionType, u64)>) -> bool {
    forall|i: int, j: int|
        0 <= i < entries.len() && 0 <= j < entries.len() && i != j ==> (#[trigger] entries[i]).0@
            != (#[trigger] entries[j]).0@
}

/// The map that a list of entries stands for; of two entries with one
/// reaction the later counts.
pub open spec fn entries_map(entries: Seq<(ReactionType, u64)>) -> Map<ReactionKey, u64>
    decreases entries.len(),
{
    if entries.len() == 0 {
        Map::empty()
    } else {
        entries_map(entries.drop_last()).insert(entries.last().0@, entries.last().1)
    }
}

/// The map of a list without repeated reactions holds exactly the
/// reactions of the list, each with the role beside it.
pub proof fn lemma_entries_map(entries: Seq<(ReactionType, u64)>)
    requires
        distinct_reactions(entries),
    ensures
        forall|k: ReactionKey|
            entries_map(entries).contains_key(k) <==> exists|i: int|
                0 <= i < entries.len() && (#[trigger] entries[i]).0@ == k,
        forall|i: int|
            0 <= i < entries.len() ==> entries_map(entries)[(#[trigger] entries[i]).0@]
                == entries[i].1,
    decreases entries.len(),
{
    if entries.len() > 0 {
        let front = entries.drop_last();
        let last = entries.last();
        assert forall|i: int, j: int|
            0 <= i < front.len() && 0 <= j < front.len() && i != j implies (#[trigger] front[i]).0@
            != (#[trigger] front[j]).0@ by {
            assert(front[i] == entries[i]);
            assert(front[j] == entries[j]);
        }
        lemma_entries_map(front);
        assert forall|k: ReactionKey|
            entries_map(entries).contains_key(k) <==> exists|i: int|
                0 <= i < entries.len() && (#[trigger] entries[i]).0@ == k by {
            if entries_map(entries).contains_key(k) {
                if k == last.0@ {
                    assert(entries[entries.len() - 1].0@ == k);
                } else {
                    assert(entries_map(front).contains_key(k));
                    let i = choose|i: int| 0 <= i < front.len() && (#[trigger] front[i]).0@ == k;
                    assert(front[i] == entries[i]);
                    assert(entries[i].0@ == k);
                }
            }
            if exists|i: int| 0 <= i < entries.len() && (#[trigger] entries[i]).0@ == k {
                let i = choose|i: int| 0 <= i < entries.len() && (#[trigger] entries[i]).0@ == k;
                if i < front.len() {
                    assert(front[i] == entries[i]);
                    assert(front[i].0@ == k);
                    assert(entries_map(front).contains_key(k));
                } else {
                    assert(k == last.0@);
                }
            }
        }
        assert forall|i: int| 0 <= i < entries.len() implies entries_map(entries)[(
            #[trigger] entries[i]).0@] == entries[i].1 by {
            if i < front.len() {
                assert(front[i] == entries[i]);
                assert(entries[i].0@ != entries[entries.len() - 1].0@);
            }
        }
    }
}

/// Which role each reaction stands for.
pub struct ReactionRoles {
    entries: Vec<(ReactionType, u64)>,
}

impl View for ReactionRoles {
    type V = Map<ReactionKey, u64>;

    closed spec fn view(&self) -> Map<ReactionKey, u64> {
        entries_map(self.entries@)
    }
}

impl ReactionRoles {
    #[verifier::type_invariant]
    spec fn distinct(&self) -> bool {
        distinct_reactions(self.entries@)
    }

    /// The map without entries.
    pub fn new() -> (r: Self)
        ensures
            r@ == Map::<ReactionKey, u64>::empty(),
    {
        ReactionRoles { entries: Vec::new() }
    }

    /// The place of the entry for `emoji`, if there is one.
    fn find(&self, emoji: &ReactionType) -> (r: Option<usize>)
        ensures
            match r {
                Some(i) => i < self.entries@.len() && self.entries@[i as int].0@ == emoji@,
                None => forall|k: int|
                    0 <= k < self.entries@.len() ==> (#[trigger] self.entries@[k]).0@ != emoji@,
            },
    {
        let mut i: usize = 0;
        while i < self.entries.len()
            invariant
                i <= self.entries@.len(),
                forall|k: int| 0 <= k < i ==> (#[trigger] self.entries@[k]).0@ != emoji@,
            decreases self.entries@.len() - i,
        {
            if self.entries[i].0.same(emoji) {
                return Some(i);
            }
            i = i + 1;
        }
        None
    }

    /// How many reactions stand for a role.
    pub fn len(&self) -> (n: usize)
        ensures
            n == self@.dom().len(),
    {
        proof {
            use_type_invariant(self);
            lemma_entries_len(self.entries@);
        }
        self.entries.len()
    }

    /// Whether `emoji` stands for a role.
    pub fn contains_key(&self, emoji: &ReactionType) -> (b: bool)
        ensures
            b == self@.contains_key(emoji@),
    {
        proof {
            use_type_invariant(self);
            lemma_entries_map(self.entries@);
        }
        self.find(emoji).is_some()
    }

    /// The role that `emoji` stands for, if it stands for one.
    pub fn get(&self, emoji: &ReactionType) -> (r: Option<u64>)
        ensures
            r == (if self@.contains_key(emoji@) {
                Some(self@[emoji@])
            } else {
                None
            }),
    {
        proof {
            use_type_invariant(self);
            lemma_entries_map(self.entries@);
        }
        match self.find(emoji) {
            Some(i) => Some(self.entries[i].1),
            None => None,
        }
    }

    /// Lets `emoji` stand for `role`, in place of the role it stood for
    /// before, if any. Returns that role.
    pub fn insert(&mut self, emoji: ReactionType, role: u64) -> (before: Option<u64>)
        ensures
            final(self)@ == old(self)@.insert(emoji@, role),
            before == (if old(self)@.contains_key(emoji@) {
                Some(old(self)@[emoji@])
            } else {
                None
            }),
    {
        proof {
            use_type_invariant(&*self);
            lemma_entries_map(self.entries@);
        }
        let found = self.find(&emoji);
        let ghost old_entries = self.entries@;
        let mut entries: Vec<(ReactionType, u64)> = Vec::new();
        std::mem::swap(&mut self.entries, &mut entries);
        match found {
            Some(i) => {
                let before = entries[i].1;
                entries.set(i, (emoji, role));
                proof {
                    let new_entries = entries@;
                    assert forall|a: int, b: int|
                        0 <= a < new_entries.len() && 0 <= b < new_entries.len() && a
                            != b implies (#[trigger] new_entries[a]).0@ != (
                    #[trigger] new_entries[b]).0@ by {
                        assert(new_entries[a].0@ == old_entries[a].0@);
                        assert(new_entries[b].0@ == old_entries[b].0@);
                    }
                    lemma_entries_map(new_entries);
                    assert forall|k: ReactionKey|
                        entries_map(new_entries).contains_key(k) <==> entries_map(
                            old_entries,
                        ).insert(emoji@, role).contains_key(k) by {
                        if entries_map(new_entries).contains_key(k) {
                            let j = choose|j: int|
                                0 <= j < new_entries.len() && (#[trigger] new_entries[j]).0@ == k;
                            assert(old_entries[j].0@ == k);
                        }
                        if entries_map(old_entries).contains_key(k) {
                            let j = choose|j: int|
                                0 <= j < old_entries.len() && (#[trigger] old_entries[j]).0@ == k;
                            assert(new_entries[j].0@ == k);
                        }
                        if k == emoji@ {
                            assert(new_entries[i as int].0@ == k);
                        }
                    }
                    assert forall|k: ReactionKey|
                        entries_map(new_entries).contains_key(k) implies entries_map(
                        new_entries,
                    )[k] == entries_map(old_entries).insert(emoji@, role)[k] by {
                        let j = choose|j: int|
                            0 <= j < new_entries.len() && (#[trigger] new_entries[j]).0@ == k;
                        if j != i {
                            assert(new_entries[j] == old_entries[j]);
                            assert(old_entries[j].0@ != old_entries[i as int].0@);
                        }
                    }
                    assert(entries_map(new_entries) =~= entries_map(old_entries).insert(
                        emoji@,
                        role,
                    ));
                }
                self.entries = entries;
                Some(before)
            },
            None => {
                entries.push((emoji, role));
                proof {
                    let new_entries = entries@;
                    assert(new_entries.drop_last() =~= old_entries);
                    assert forall|a: int, b: int|
                        0 <= a < new_entries.len() && 0 <= b < new_entries.len() && a
                            != b implies (#[trigger] new_entries[a]).0@ != (
                    #[trigger] new_entries[b]).0@ by {
                        if a < old_entries.len() {
                            assert(new_entries[a] == old_entries[a]);
                        }
                        if b < old_entries.len() {
                            assert(new_entries[b] == old_entries[b]);
                        }
                    }
                }
                self.entries = entries;
                None
            },
        }
    }
}

/// A list without repeated reactions has as many entries as its map has
/// reactions.
pub proof fn lemma_entries_len(entries: Seq<(ReactionType, u64)>)
    requires
        distinct_reactions(entries),
    ensures
        entries_map(entries).dom().finite(),
        entries_map(entries).dom().len() == entries.len(),
    decreases entries.len(),
{
    if entries.len() > 0 {
        let front = entries.drop_last();
        assert forall|i: int, j: int|
            0 <= i < front.len() && 0 <= j < front.len() && i != j implies (#[trigger] front[i]).0@
            != (#[trigger] front[j]).0@ by {
            assert(front[i] == entries[i]);
            assert(front[j] == entries[j]);
        }
        lemma_entries_len(front);
        lemma_entries_map(front);
        let k = entries.last().0@;
        if entries_map(front).contains_key(k) {
            let i = choose|i: int| 0 <= i < front.len() && (#[trigger] front[i]).0@ == k;
            assert(entries[i].0@ == entries[entries.len() - 1].0@);
        }
        assert(entries_map(entries).dom() =~= entries_map(front).dom().insert(k));
    }
}

/// The state that all parts of the daemon share.
pub struct Data {
    /// Which role each reaction stands for. Filled once, before anything
    /// reads it.
    pub reaction_roles: ReactionRoles,
    /// The handle by which the verbosity of the log is changed.
    pub log_reload_handle: ReloadHandle,
}

/// The map `roles` with the seven reactions that the daemon is built with,
/// each standing for its role.
pub open spec fn with_reaction_roles(roles: Map<ReactionKey, u64>) -> Map<ReactionKey, u64> {
    roles.insert(ReactionKey::Unicode("\u{1F4C1}"@), ARCHIVE_ROLE_ID).insert(
        ReactionKey::Unicode("\u{1F4F1}"@),
        MOBILE_ROLE_ID,
    ).insert(ReactionKey::Unicode("\u{2699}\u{FE0F}"@), SYSTEMS_ROLE_ID).insert(
        ReactionKey::Unicode("\u{1F916}"@),
        AI_ROLE_ID,
    ).insert(ReactionKey::Unicode("\u{1F4DC}"@), RESEARCH_ROLE_ID).insert(
        ReactionKey::Unicode("\u{1F680}"@),
        DEVOPS_ROLE_ID,
    ).insert(ReactionKey::Unicode("\u{1F310}"@), WEB_ROLE_ID)
}

/// Puts the seven reactions that the daemon is built with into the shared
/// state, each with its role. What else the map held stays, and the log
/// handle is not touched.
pub fn populate_data_with_reaction_roles(data: &mut Data)
    ensures
        final(data).reaction_roles@ == with_reaction_roles(old(data).reaction_roles@),
        final(data).log_reload_handle == old(data).log_reload_handle,
{
    data.reaction_roles.insert(ReactionType::unicode("\u{1F4C1}"), ARCHIVE_ROLE_ID);
    data.reaction_roles.insert(ReactionType::unicode("\u{1F4F1}"), MOBILE_ROLE_ID);
    data.reaction_roles.insert(ReactionType::unicode("\u{2699}\u{FE0F}"), SYSTEMS_ROLE_ID);
    data.reaction_roles.insert(ReactionType::unicode("\u{1F916}"), AI_ROLE_ID);
    data.reaction_roles.insert(ReactionType::unicode("\u{1F4DC}"), RESEARCH_ROLE_ID);
    data.reaction_roles.insert(ReactionType::unicode("\u{1F680}"), DEVOPS_ROLE_ID);
    data.reaction_roles.insert(ReactionType::unicode("\u{1F310}"), WEB_ROLE_ID);
}

} // verus!
