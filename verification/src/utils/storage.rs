//! The exclusion list: the members that the status-update job leaves alone,
//! and the text in which the list is kept between runs.
use crate::utils::decimal::{
    decimal_digits, decimal_u64, is_digit, lemma_decimal_digits,
    lemma_decimal_round_trip, parse_u64, push_decimal,
};
use crate::utils::lines::{
    first_newline, lemma_first_newline, lemma_first_newline_bounds, line_end, lines,
    without_carriage_return,
};
use vstd::prelude::*;
use vstd::slice::slice_subrange;

verus! {

/// Each element is smaller than those after it.
pub open spec fn strictly_ascending(s: Seq<u64>) -> bool {
    forall|i: int, j: int| 0 <= i < j < s.len() ==> s[i] < s[j]
}

/// The set with `id` taken out if it was in, and put in if it was not.
pub open spec fn toggled(members: Set<u64>, id: u64) -> Set<u64> {
    if members.contains(id) {
        members.remove(id)
    } else {
        members.insert(id)
    }
}

/// The members of a finite set, smallest first.
pub open spec fn ascending_ids(members: Set<u64>) -> Seq<u64> {
    choose|s: Seq<u64>| strictly_ascending(s) && s.to_set() == members
}

/// Two ascending lists with the same elements are the same list.
pub proof fn lemma_ascending_unique(a: Seq<u64>, b: Seq<u64>)
    requires
        strictly_ascending(a),
        strictly_ascending(b),
        a.to_set() == b.to_set(),
    ensures
        a == b,
    decreases a.len(),
{
    if a.len() == 0 {
        if b.len() > 0 {
            assert(b.to_set().contains(b[0]));
            assert(a.contains(b[0]));
        }
        assert(a =~= b);
    } else {
        let x = a.last();
        assert(a.to_set().contains(x));
        assert(b.contains(x));
        let y = b.last();
        assert(b.to_set().contains(y));
        assert(a.contains(y));
        assert(x == y);
        let a0 = a.drop_last();
        let b0 = b.drop_last();
        assert forall|v: u64| a0.to_set().contains(v) <==> b0.to_set().contains(v) by {
            if a0.contains(v) {
                let i = choose|i: int| 0 <= i < a0.len() && a0[i] == v;
                assert(a[i] == v);
                assert(a.to_set().contains(v));
                assert(b.contains(v));
                let j = choose|j: int| 0 <= j < b.len() && b[j] == v;
                assert(j < b.len() - 1);
                assert(b0[j] == v);
            }
            if b0.contains(v) {
                let i = choose|i: int| 0 <= i < b0.len() && b0[i] == v;
                assert(b[i] == v);
                assert(b.to_set().contains(v));
                assert(a.contains(v));
                let j = choose|j: int| 0 <= j < a.len() && a[j] == v;
                assert(j < a.len() - 1);
                assert(a0[j] == v);
            }
        }
        assert(a0.to_set() =~= b0.to_set());
        lemma_ascending_unique(a0, b0);
        assert(a =~= a0.push(x));
        assert(b =~= b0.push(y));
    }
}

/// An ascending list is the ascending list of its own elements.
pub proof fn lemma_ascending_ids(s: Seq<u64>)
    requires
        strictly_ascending(s),
    ensures
        ascending_ids(s.to_set()) == s,
{
    let t = ascending_ids(s.to_set());
    assert(strictly_ascending(s) && s.to_set() == s.to_set());
    lemma_ascending_unique(t, s);
}

/// Toggling the same identifier twice gives the set back.
pub proof fn lemma_toggled_twice(members: Set<u64>, id: u64)
    ensures
        toggled(toggled(members, id), id) == members,
{
    assert(toggled(toggled(members, id), id) =~= members);
}

/// A set of member identifiers, kept as an ascending list.
pub struct ExcludedMembers {
    ids: Vec<u64>,
}

impl View for ExcludedMembers {
    type V = Seq<u64>;

    closed spec fn view(&self) -> Seq<u64> {
        self.ids@
    }
}

impl ExcludedMembers {
    #[verifier::type_invariant]
    spec fn ordered(&self) -> bool {
        strictly_ascending(self.ids@)
    }

    /// The identifiers on the list, as a set.
    pub open spec fn members(&self) -> Set<u64> {
        self@.to_set()
    }

    /// The empty list.
    pub fn new() -> (r: Self)
        ensures
            r@ == Seq::<u64>::empty(),
            r.members() == Set::<u64>::empty(),
    {
        let r = ExcludedMembers { ids: Vec::new() };
        assert(r@.to_set() =~= Set::<u64>::empty());
        r
    }

    /// How many identifiers are on the list.
    pub fn len(&self) -> (n: usize)
        ensures
            n == self@.len(),
            n == self.members().len(),
            strictly_ascending(self@),
    {
        proof {
            use_type_invariant(self);
            lemma_ascending_no_duplicates(self@);
            self@.unique_seq_to_set();
        }
        self.ids.len()
    }

    /// The identifiers, smallest first.
    pub fn to_vec(&self) -> (v: Vec<u64>)
        ensures
            v@ == self@,
            strictly_ascending(v@),
            v@ == ascending_ids(self.members()),
    {
        proof {
            use_type_invariant(self);
            lemma_ascending_ids(self@);
        }
        self.ids.clone()
    }

    /// The place of the first identifier that is not below `id`.
    fn position(&self, id: u64) -> (p: usize)
        ensures
            p <= self@.len(),
            forall|i: int| 0 <= i < p ==> self@[i] < id,
            forall|i: int| p <= i < self@.len() ==> self@[i] >= id,
    {
        proof {
            use_type_invariant(self);
        }
        let mut p: usize = 0;
        while p < self.ids.len() && self.ids[p] < id
            invariant
                p <= self.ids@.len(),
                forall|i: int| 0 <= i < p ==> self.ids@[i] < id,
            decreases self.ids@.len() - p,
        {
            p = p + 1;
        }
        p
    }

    /// Whether `id` is on the list.
    pub fn contains(&self, id: u64) -> (b: bool)
        ensures
            b == self.members().contains(id),
    {
        let p = self.position(id);
        let b = p < self.ids.len() && self.ids[p] == id;
        proof {
            use_type_invariant(self);
            if b {
                assert(self@[p as int] == id);
            } else if self@.contains(id) {
                let i = choose|i: int| 0 <= i < self@.len() && self@[i] == id;
                assert(i >= p);
                assert(self@[p as int] <= self@[i]);
            }
        }
        b
    }

    /// Puts `id` on the list. Returns whether it was new.
    pub fn insert(&mut self, id: u64) -> (added: bool)
        ensures
            final(self).members() == old(self).members().insert(id),
            added == !old(self).members().contains(id),
            strictly_ascending(final(self)@),
    {
        proof {
            use_type_invariant(&*self);
        }
        let p = self.position(id);
        if p < self.ids.len() && self.ids[p] == id {
            assert(self@.to_set().insert(id) =~= self@.to_set());
            false
        } else {
            let ghost before = self.ids@;
            let mut ids: Vec<u64> = Vec::new();
            std::mem::swap(&mut self.ids, &mut ids);
            ids.insert(p, id);
            self.ids = ids;
            proof {
                let after = self.ids@;
                assert(after == before.insert(p as int, id));
                assert forall|v: u64| after.contains(v) <==> (before.contains(v) || v == id) by {
                    if after.contains(v) {
                        let i = choose|i: int| 0 <= i < after.len() && after[i] == v;
                        if i < p {
                            assert(before[i] == v);
                        } else if i > p {
                            assert(before[i - 1] == v);
                        }
                    }
                    if before.contains(v) {
                        let i = choose|i: int| 0 <= i < before.len() && before[i] == v;
                        if i < p {
                            assert(after[i] == v);
                        } else {
                            assert(after[i + 1] == v);
                        }
                    }
                    if v == id {
                        assert(after[p as int] == v);
                    }
                }
                assert(after.to_set() =~= before.to_set().insert(id));
                if before.contains(id) {
                    let i = choose|i: int| 0 <= i < before.len() && before[i] == id;
                    assert(i >= p);
                }
            }
            true
        }
    }

    /// Takes `id` off the list. Returns whether it was there.
    pub fn remove(&mut self, id: u64) -> (removed: bool)
        ensures
            final(self).members() == old(self).members().remove(id),
            removed == old(self).members().contains(id),
            strictly_ascending(final(self)@),
    {
        proof {
            use_type_invariant(&*self);
        }
        let p = self.position(id);
        if p < self.ids.len() && self.ids[p] == id {
            let ghost before = self.ids@;
            let mut ids: Vec<u64> = Vec::new();
            std::mem::swap(&mut self.ids, &mut ids);
            ids.remove(p);
            self.ids = ids;
            proof {
                let after = self.ids@;
                assert(after == before.remove(p as int));
                assert forall|v: u64| after.contains(v) <==> (before.contains(v) && v != id) by {
                    if after.contains(v) {
                        let i = choose|i: int| 0 <= i < after.len() && after[i] == v;
                        if i < p {
                            assert(before[i] == v);
                        } else {
                            assert(before[i + 1] == v);
                        }
                    }
                    if before.contains(v) && v != id {
                        let i = choose|i: int| 0 <= i < before.len() && before[i] == v;
                        if i < p {
                            assert(after[i] == v);
                        } else {
                            assert(after[i - 1] == v);
                        }
                    }
                }
                assert(after.to_set() =~= before.to_set().remove(id));
                assert(before.contains(id));
            }
            true
        } else {
            proof {
                if self@.contains(id) {
                    let i = choose|i: int| 0 <= i < self@.len() && self@[i] == id;
                    assert(i >= p);
                }
                assert(self@.to_set().remove(id) =~= self@.to_set());
            }
            false
        }
    }

    /// Takes `id` off the list if it is on it, and puts it on if it is not.
    /// Returns whether `id` is on the list afterwards.
    pub fn toggle(&mut self, id: u64) -> (now_excluded: bool)
        ensures
            final(self).members() == toggled(old(self).members(), id),
            now_excluded == !old(self).members().contains(id),
            strictly_ascending(final(self)@),
    {
        if self.contains(id) {
            self.remove(id);
            false
        } else {
            self.insert(id);
            true
        }
    }
}

/// An ascending list holds nothing twice.
pub proof fn lemma_ascending_no_duplicates(s: Seq<u64>)
    requires
        strictly_ascending(s),
    ensures
        s.no_duplicates(),
{
    assert forall|i: int, j: int| 0 <= i < s.len() && 0 <= j < s.len() && i != j implies s[i]
        != s[j] by {
        if i < j {
            assert(s[i] < s[j]);
        } else {
            assert(s[j] < s[i]);
        }
    }
}

/// The identifiers that the given lines denote. A line that denotes no
/// number adds nothing.
pub open spec fn ids_of_lines(ls: Seq<Seq<u8>>) -> Set<u64> {
    Set::new(|n: u64| exists|i: int| 0 <= i < ls.len() && decimal_u64(#[trigger] ls[i]) == Some(n))
}

/// The identifiers that a stored text lists: one to a line, in decimal.
pub open spec fn listed_ids(store: Seq<u8>) -> Set<u64> {
    ids_of_lines(lines(store))
}

/// The text that lists the given identifiers in their order, each in its
/// shortest decimal form and followed by a line feed.
pub open spec fn store_text(ids: Seq<u64>) -> Seq<u8>
    decreases ids.len(),
{
    if ids.len() == 0 {
        Seq::empty()
    } else {
        store_text(ids.drop_last()) + decimal_digits(ids.last() as nat).push(10)
    }
}

/// The text that a list with exactly the identifiers of `store` is written
/// as.
pub open spec fn canonical_store(store: Seq<u8>) -> Seq<u8> {
    store_text(ascending_ids(listed_ids(store)))
}

/// The text that is written after `id` was toggled in the list read from
/// `store`.
pub open spec fn toggled_store(store: Seq<u8>, id: u64) -> Seq<u8> {
    store_text(ascending_ids(toggled(listed_ids(store), id)))
}

/// The set that holds the number if there is one.
pub open spec fn optional_id(id: Option<u64>) -> Set<u64> {
    match id {
        Some(n) => set![n],
        None => Set::empty(),
    }
}

/// The identifiers of a first line and of the lines after it.
pub proof fn lemma_ids_of_lines_front(first: Seq<u8>, rest: Seq<Seq<u8>>)
    ensures
        ids_of_lines(seq![first] + rest) == optional_id(decimal_u64(first)).union(
            ids_of_lines(rest),
        ),
{
    let all = seq![first] + rest;
    let rhs = optional_id(decimal_u64(first)).union(ids_of_lines(rest));
    assert forall|n: u64| ids_of_lines(all).contains(n) <==> rhs.contains(n) by {
        if ids_of_lines(all).contains(n) {
            let i = choose|i: int| 0 <= i < all.len() && decimal_u64(#[trigger] all[i]) == Some(n);
            if i > 0 {
                assert(rest[i - 1] == all[i]);
            }
        }
        if optional_id(decimal_u64(first)).contains(n) {
            assert(all[0] == first);
        }
        if ids_of_lines(rest).contains(n) {
            let i = choose|i: int| 0 <= i < rest.len() && decimal_u64(#[trigger] rest[i]) == Some(n);
            assert(all[i + 1] == rest[i]);
        }
    }
    assert(ids_of_lines(all) =~= rhs);
}

/// The identifiers of a text are those of its first line and of the text
/// after that line.
pub proof fn lemma_listed_ids_step(store: Seq<u8>)
    requires
        store.len() > 0,
    ensures
        ({
            let k = first_newline(store);
            if k < store.len() {
                listed_ids(store) == optional_id(
                    decimal_u64(without_carriage_return(store.take(k))),
                ).union(listed_ids(store.skip(k + 1)))
            } else {
                listed_ids(store) == optional_id(decimal_u64(store))
            }
        }),
{
    let k = first_newline(store);
    lemma_first_newline_bounds(store);
    if k < store.len() {
        lemma_ids_of_lines_front(without_carriage_return(store.take(k)), lines(store.skip(k + 1)));
    } else {
        lemma_ids_of_lines_front(store, Seq::empty());
        assert(seq![store] + Seq::<Seq<u8>>::empty() =~= seq![store]);
        assert(ids_of_lines(Seq::<Seq<u8>>::empty()) =~= Set::<u64>::empty());
        assert(optional_id(decimal_u64(store)).union(Set::<u64>::empty()) =~= optional_id(
            decimal_u64(store),
        ));
    }
}

/// The text of a list that starts with `first`.
pub proof fn lemma_store_text_front(first: u64, rest: Seq<u64>)
    ensures
        store_text(seq![first] + rest) == decimal_digits(first as nat).push(10) + store_text(rest),
    decreases rest.len(),
{
    let all = seq![first] + rest;
    if rest.len() == 0 {
        assert(all.drop_last() =~= Seq::<u64>::empty());
        assert(rest =~= Seq::<u64>::empty());
        assert(store_text(Seq::<u64>::empty()) =~= Seq::<u8>::empty());
        assert(all.last() == first);
        assert(store_text(all) =~= decimal_digits(first as nat).push(10) + store_text(rest));
    } else {
        lemma_store_text_front(first, rest.drop_last());
        assert(all.drop_last() =~= seq![first] + rest.drop_last());
        assert(all.last() == rest.last());
        assert(store_text(all) =~= decimal_digits(first as nat).push(10) + store_text(rest));
    }
}

/// The lines of a written list are the decimal forms of its identifiers.
pub proof fn lemma_lines_of_store_text(ids: Seq<u64>)
    ensures
        lines(store_text(ids)) == ids.map_values(|n: u64| decimal_digits(n as nat)),
    decreases ids.len(),
{
    let digits = |n: u64| decimal_digits(n as nat);
    if ids.len() == 0 {
        assert(lines(store_text(ids)) =~= ids.map_values(digits));
    } else {
        let first = ids[0];
        let rest = ids.drop_first();
        assert(ids =~= seq![first] + rest);
        lemma_store_text_front(first, rest);
        lemma_lines_of_store_text(rest);
        lemma_decimal_digits(first as nat);
        let d = decimal_digits(first as nat);
        let text = store_text(ids);
        let k = d.len() as int;
        assert forall|i: int| 0 <= i < k implies text[i] != 10 by {
            assert(text[i] == d[i]);
            assert(is_digit(d[i]));
        }
        assert(text[k] == 10);
        lemma_first_newline(text, k);
        assert(text.take(k) =~= d);
        assert(is_digit(d.last()));
        assert(without_carriage_return(d) == d);
        assert(text.skip(k + 1) =~= store_text(rest));
        assert(lines(text) =~= ids.map_values(digits));
    }
}

/// Reading a written list gives its identifiers back.
pub proof fn lemma_store_round_trip(ids: Seq<u64>)
    ensures
        listed_ids(store_text(ids)) == ids.to_set(),
{
    lemma_lines_of_store_text(ids);
    let ls = lines(store_text(ids));
    assert forall|n: u64| ids_of_lines(ls).contains(n) <==> ids.to_set().contains(n) by {
        if ids_of_lines(ls).contains(n) {
            let i = choose|i: int| 0 <= i < ls.len() && decimal_u64(#[trigger] ls[i]) == Some(n);
            lemma_decimal_round_trip(ids[i]);
            assert(ids[i] == n);
        }
        if ids.contains(n) {
            let i = choose|i: int| 0 <= i < ids.len() && ids[i] == n;
            lemma_decimal_round_trip(n);
            assert(decimal_u64(ls[i]) == Some(n));
        }
    }
    assert(ids_of_lines(ls) =~= ids.to_set());
}

/// Reads the exclusion list from its stored text: one identifier to a
/// line, in decimal. Lines that denote no identifier are passed over, and an
/// identifier that is listed more than once counts once.
pub fn get_excluded_members(store: &[u8]) -> (excluded: ExcludedMembers)
    ensures
        excluded.members() == listed_ids(store@),
        strictly_ascending(excluded@),
        excluded@ == ascending_ids(listed_ids(store@)),
{
    let mut excluded = ExcludedMembers::new();
    let mut i: usize = 0;
    assert(store@.skip(0) =~= store@);
    while i < store.len()
        invariant
            i <= store.len(),
            excluded.members().union(listed_ids(store@.skip(i as int))) == listed_ids(store@),
        decreases store.len() - i,
    {
        let ghost rest = store@.skip(i as int);
        let ghost seen = excluded.members();
        let j = line_end(store, i);
        let terminated = j < store.len();
        let mut end: usize = j;
        if terminated && end > i && store[end - 1] == 13 {
            end = end - 1;
        }
        let line = slice_subrange(store, i, end);
        let id = parse_u64(line);
        if let Some(n) = id {
            excluded.insert(n);
        }
        let next: usize = if terminated { j + 1 } else { j };
        proof {
            lemma_listed_ids_step(rest);
            let k = j - i;
            if terminated {
                assert(line@ =~= without_carriage_return(rest.take(k)));
                assert(rest.skip(k + 1) =~= store@.skip(next as int));
            } else {
                assert(line@ =~= rest);
                assert(listed_ids(store@.skip(next as int)) =~= Set::<u64>::empty()) by {
                    assert(store@.skip(next as int) =~= Seq::<u8>::empty());
                }
            }
            assert(excluded.members() =~= seen.union(optional_id(id)));
            assert(excluded.members().union(listed_ids(store@.skip(next as int))) =~= seen.union(
                listed_ids(rest),
            ));
        }
        i = next;
    }
    proof {
        use_type_invariant(&excluded);
        assert(listed_ids(store@.skip(i as int)) =~= Set::<u64>::empty()) by {
            assert(store@.skip(i as int) =~= Seq::<u8>::empty());
        }
        assert(excluded.members() =~= listed_ids(store@));
        lemma_ascending_ids(excluded@);
    }
    excluded
}

/// Writes the exclusion list as text: the identifiers in ascending order,
/// each in its shortest decimal form and followed by a line feed.
pub fn save_excluded_members(excluded: &ExcludedMembers) -> (store: Vec<u8>)
    ensures
        store@ == store_text(excluded@),
        listed_ids(store@) == excluded.members(),
{
    let mut store: Vec<u8> = Vec::new();
    let mut i: usize = 0;
    assert(excluded.ids@.take(0) =~= Seq::<u64>::empty());
    while i < excluded.ids.len()
        invariant
            i <= excluded.ids@.len(),
            store@ == store_text(excluded.ids@.take(i as int)),
        decreases excluded.ids@.len() - i,
    {
        let ghost done = excluded.ids@.take(i as int);
        let ghost more = excluded.ids@.take(i + 1);
        push_decimal(&mut store, excluded.ids[i]);
        store.push(10);
        proof {
            assert(more.drop_last() =~= done);
            assert(more.last() == excluded.ids@[i as int]);
            assert(store@ =~= store_text(more));
        }
        i = i + 1;
    }
    proof {
        assert(excluded.ids@.take(i as int) =~= excluded.ids@);
        lemma_store_round_trip(excluded@);
    }
    store
}

/// An ascending list with one more identifier: some ascending list holds
/// the elements of `s` and `id`.
pub proof fn lemma_ascending_with(s: Seq<u64>, id: u64) -> (t: Seq<u64>)
    requires
        strictly_ascending(s),
    ensures
        strictly_ascending(t),
        t.to_set() == s.to_set().insert(id),
    decreases s.len(),
{
    if s.len() == 0 {
        let t = seq![id];
        assert(t.to_set() =~= s.to_set().insert(id)) by {
            assert(t[0] == id);
        }
        t
    } else {
        let x = s.last();
        let s0 = s.drop_last();
        assert(s =~= s0.push(x));
        if x < id {
            let t = s.push(id);
            assert(t.to_set() =~= s.to_set().insert(id)) by {
                assert(t[s.len() as int] == id);
                assert forall|v: u64| s.contains(v) implies t.contains(v) by {
                    let i = choose|i: int| 0 <= i < s.len() && s[i] == v;
                    assert(t[i] == v);
                }
            }
            t
        } else if x == id {
            assert(s.to_set().contains(id));
            assert(s.to_set() =~= s.to_set().insert(id));
            s
        } else {
            let t0 = lemma_ascending_with(s0, id);
            let t = t0.push(x);
            assert forall|i: int| 0 <= i < t0.len() implies t0[i] < x by {
                assert(t0.to_set().contains(t0[i]));
                if t0[i] != id {
                    assert(s0.contains(t0[i]));
                    let j = choose|j: int| 0 <= j < s0.len() && s0[j] == t0[i];
                    assert(s[j] < s[s.len() - 1]);
                }
            }
            assert(t.to_set() =~= s.to_set().insert(id)) by {
                assert forall|v: u64| t.contains(v) <==> (s.contains(v) || v == id) by {
                    if t.contains(v) {
                        let i = choose|i: int| 0 <= i < t.len() && t[i] == v;
                        if i < t0.len() {
                            assert(t0.to_set().contains(t0[i]));
                            if v != id {
                                assert(s0.contains(v));
                                let j = choose|j: int| 0 <= j < s0.len() && s0[j] == v;
                                assert(s[j] == v);
                            }
                        } else {
                            assert(s[s.len() - 1] == v);
                        }
                    }
                    if s.contains(v) || v == id {
                        if v == x {
                            assert(t[t0.len() as int] == v);
                        } else {
                            if v != id {
                                let j = choose|j: int| 0 <= j < s.len() && s[j] == v;
                                assert(s0[j] == v);
                                assert(s0.to_set().contains(v));
                            }
                            assert(t0.to_set().contains(v));
                            let i = choose|i: int| 0 <= i < t0.len() && t0[i] == v;
                            assert(t[i] == v);
                        }
                    }
                }
            }
            t
        }
    }
}

/// An ascending list with one identifier less: some ascending list holds
/// the elements of `s` but `id`.
pub proof fn lemma_ascending_without(s: Seq<u64>, id: u64) -> (t: Seq<u64>)
    requires
        strictly_ascending(s),
    ensures
        strictly_ascending(t),
        t.to_set() == s.to_set().remove(id),
    decreases s.len(),
{
    if s.len() == 0 {
        assert(s.to_set() =~= s.to_set().remove(id));
        s
    } else {
        let x = s.last();
        let s0 = s.drop_last();
        assert(s =~= s0.push(x));
        let t0 = lemma_ascending_without(s0, id);
        assert forall|v: u64| s.contains(v) <==> (s0.contains(v) || v == x) by {
            if s.contains(v) {
                let j = choose|j: int| 0 <= j < s.len() && s[j] == v;
                if j < s0.len() {
                    assert(s0[j] == v);
                }
            }
            if s0.contains(v) {
                let j = choose|j: int| 0 <= j < s0.len() && s0[j] == v;
                assert(s[j] == v);
            }
            if v == x {
                assert(s[s.len() - 1] == v);
            }
        }
        assert forall|i: int| 0 <= i < t0.len() implies t0[i] < x by {
            assert(t0.to_set().contains(t0[i]));
            assert(s0.contains(t0[i]));
            let j = choose|j: int| 0 <= j < s0.len() && s0[j] == t0[i];
            assert(s[j] < s[s.len() - 1]);
        }
        if x == id {
            assert(t0.to_set() =~= s.to_set().remove(id)) by {
                assert forall|v: u64| t0.to_set().contains(v) <==> (s.contains(v) && v != id) by {
                    if t0.contains(v) {
                        let i = choose|i: int| 0 <= i < t0.len() && t0[i] == v;
                        assert(t0[i] < x);
                    }
                }
            }
            t0
        } else {
            let t = t0.push(x);
            assert(t.to_set() =~= s.to_set().remove(id)) by {
                assert forall|v: u64| t.contains(v) <==> (s.contains(v) && v != id) by {
                    if t.contains(v) {
                        let i = choose|i: int| 0 <= i < t.len() && t[i] == v;
                        if i < t0.len() {
                            assert(t0.to_set().contains(t0[i]));
                        }
                    }
                    if s.contains(v) && v != id {
                        if v == x {
                            assert(t[t0.len() as int] == v);
                        } else {
                            assert(t0.to_set().contains(v));
                            let i = choose|i: int| 0 <= i < t0.len() && t0[i] == v;
                            assert(t[i] == v);
                        }
                    }
                }
            }
            t
        }
    }
}

/// The identifiers that some lines denote can be listed in ascending order.
pub proof fn lemma_ids_of_lines_ascending(ls: Seq<Seq<u8>>) -> (t: Seq<u64>)
    ensures
        strictly_ascending(t),
        t.to_set() == ids_of_lines(ls),
    decreases ls.len(),
{
    if ls.len() == 0 {
        let t = Seq::<u64>::empty();
        assert(t.to_set() =~= ids_of_lines(ls));
        t
    } else {
        let rest = ls.drop_first();
        let t0 = lemma_ids_of_lines_ascending(rest);
        assert(ls =~= seq![ls[0]] + rest);
        lemma_ids_of_lines_front(ls[0], rest);
        match decimal_u64(ls[0]) {
            Some(n) => {
                let t = lemma_ascending_with(t0, n);
                assert(t.to_set() =~= ids_of_lines(ls));
                t
            },
            None => {
                assert(t0.to_set() =~= ids_of_lines(ls));
                t0
            },
        }
    }
}

/// The ascending list of what a stored text lists, and of that with one
/// identifier toggled, hold exactly those identifiers.
pub proof fn lemma_listed_ids_ascending(store: Seq<u8>, id: u64)
    ensures
        strictly_ascending(ascending_ids(listed_ids(store))),
        ascending_ids(listed_ids(store)).to_set() == listed_ids(store),
        strictly_ascending(ascending_ids(toggled(listed_ids(store), id))),
        ascending_ids(toggled(listed_ids(store), id)).to_set() == toggled(listed_ids(store), id),
{
    let t = lemma_ids_of_lines_ascending(lines(store));
    assert(strictly_ascending(t) && t.to_set() == listed_ids(store));
    if listed_ids(store).contains(id) {
        let u = lemma_ascending_without(t, id);
        assert(strictly_ascending(u) && u.to_set() == toggled(listed_ids(store), id));
    } else {
        let u = lemma_ascending_with(t, id);
        assert(strictly_ascending(u) && u.to_set() == toggled(listed_ids(store), id));
    }
}

/// Toggling the same identifier twice, with the list written out and read
/// back in between, leaves the text that the list read from `store` is
/// itself written as.
pub proof fn lemma_toggle_twice_restores_store(store: Seq<u8>, id: u64)
    ensures
        toggled_store(toggled_store(store, id), id) == canonical_store(store),
        listed_ids(toggled_store(store, id)) == toggled(listed_ids(store), id),
        listed_ids(toggled_store(toggled_store(store, id), id)) == listed_ids(store),
{
    lemma_listed_ids_ascending(store, id);
    let between = ascending_ids(toggled(listed_ids(store), id));
    lemma_store_round_trip(between);
    lemma_toggled_twice(listed_ids(store), id);
    lemma_store_round_trip(ascending_ids(listed_ids(store)));
}

/// A text that was written from a list is its own canonical form, so two
/// toggles of one identifier give back that very text.
pub proof fn lemma_written_store_is_canonical(ids: Seq<u64>, id: u64)
    requires
        strictly_ascending(ids),
    ensures
        canonical_store(store_text(ids)) == store_text(ids),
        toggled_store(toggled_store(store_text(ids), id), id) == store_text(ids),
{
    lemma_store_round_trip(ids);
    lemma_ascending_ids(ids);
    lemma_toggle_twice_restores_store(store_text(ids), id);
}

/// Toggles `id` in the list that `store` holds and writes the list out
/// again.
pub fn toggle_store(store: &[u8], id: u64) -> (r: (Vec<u8>, bool))
    ensures
        r.0@ == toggled_store(store@, id),
        r.1 == !listed_ids(store@).contains(id),
        listed_ids(r.0@) == toggled(listed_ids(store@), id),
{
    let mut excluded = get_excluded_members(store);
    let now_excluded = excluded.toggle(id);
    let text = save_excluded_members(&excluded);
    proof {
        lemma_ascending_ids(excluded@);
    }
    (text, now_excluded)
}

} // verus!
