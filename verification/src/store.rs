//! Verified semantics of the persistent rule store: a table of rules keyed
//! by `(channel, match_expression)` with a uniqueness constraint, offering
//! insert-or-replace, delete-by-key and select-all.
//!
//! `CommandTable` is the in-memory model of that table.  The durable engine
//! behind it is an external collaborator; the unverified shell forwards each
//! mutation to it and answers with the affected-row count that these
//! contracts describe.

use vstd::prelude::*;
use crate::models::SpecCommand;
use crate::models::Command;
use crate::models::CreateCommand;
use crate::models::RemoveCommand;
use crate::models::spec_key_eq;
use crate::models::spec_has_key;
use crate::models::keys_unique;
use crate::models::spec_contains_key;
use crate::text::str_eq;

verus! {

/// Index of the first rule carrying the key, scanning from `from`.
pub open spec fn spec_key_index_from(
    s: Seq<SpecCommand>,
    channel: Seq<char>,
    match_expression: Seq<char>,
    from: int,
) -> Option<int>
    decreases s.len() - from,
{
    if from < 0 || from >= s.len() {
        None
    } else if spec_has_key(s[from], channel, match_expression) {
        Some(from)
    } else {
        spec_key_index_from(s, channel, match_expression, from + 1)
    }
}

/// Index of the first rule carrying the key, if any.
pub open spec fn spec_key_index(
    s: Seq<SpecCommand>,
    channel: Seq<char>,
    match_expression: Seq<char>,
) -> Option<int> {
    spec_key_index_from(s, channel, match_expression, 0)
}

/// The response text stored under the key, if any.
pub open spec fn spec_lookup(
    s: Seq<SpecCommand>,
    channel: Seq<char>,
    match_expression: Seq<char>,
) -> Option<Seq<char>> {
    match spec_key_index(s, channel, match_expression) {
        Some(i) => Some(s[i].response_text),
        None => None,
    }
}

/// The table after inserting `r` with replace-on-conflict semantics: a row
/// carrying `r`'s key is overwritten in place, otherwise `r` is appended.
pub open spec fn spec_upsert(s: Seq<SpecCommand>, r: SpecCommand) -> Seq<SpecCommand> {
    match spec_key_index(s, r.channel, r.match_expression) {
        Some(i) => s.update(i, r),
        None => s.push(r),
    }
}

/// The table after deleting the row carrying the key, if one exists.
pub open spec fn spec_remove_key(
    s: Seq<SpecCommand>,
    channel: Seq<char>,
    match_expression: Seq<char>,
) -> Seq<SpecCommand> {
    match spec_key_index(s, channel, match_expression) {
        Some(i) => s.remove(i),
        None => s,
    }
}

/// How many rows carry the key.
pub open spec fn spec_count_key(
    s: Seq<SpecCommand>,
    channel: Seq<char>,
    match_expression: Seq<char>,
) -> nat
    decreases s.len(),
{
    if s.len() == 0 {
        0
    } else {
        spec_count_key(s.drop_last(), channel, match_expression) + (
        if spec_has_key(s.last(), channel, match_expression) {
            1nat
        } else {
            0nat
        })
    }
}

/// What a found key index means: the first matching row; `None` means no
/// row at or after `from` matches.
pub proof fn lemma_key_index_from_props(
    s: Seq<SpecCommand>,
    channel: Seq<char>,
    match_expression: Seq<char>,
    from: int,
)
    requires
        0 <= from <= s.len(),
    ensures
        match spec_key_index_from(s, channel, match_expression, from) {
            Some(i) => from <= i < s.len() && spec_has_key(s[i], channel, match_expression)
                && (forall|j: int|
                from <= j < i ==> !spec_has_key(#[trigger] s[j], channel, match_expression)),
            None => forall|j: int|
                from <= j < s.len() ==> !spec_has_key(#[trigger] s[j], channel, match_expression),
        },
    decreases s.len() - from,
{
    if from < s.len() && !spec_has_key(s[from], channel, match_expression) {
        lemma_key_index_from_props(s, channel, match_expression, from + 1);
    }
}

/// A key is contained exactly when the first-match index exists.
pub proof fn lemma_key_index_contains(
    s: Seq<SpecCommand>,
    channel: Seq<char>,
    match_expression: Seq<char>,
)
    ensures
        spec_contains_key(s, channel, match_expression) <==> spec_key_index(
            s,
            channel,
            match_expression,
        ) is Some,
{
    lemma_key_index_from_props(s, channel, match_expression, 0);
    if spec_key_index(s, channel, match_expression) is Some {
        let i = spec_key_index(s, channel, match_expression)->Some_0;
        assert(spec_has_key(s[i], channel, match_expression));
    }
}

/// The verified model of the rule table.  Its invariant is the storage
/// engine's uniqueness constraint on `(channel, match_expression)`.
pub struct CommandTable {
    rows: Vec<Command>,
}

impl View for CommandTable {
    type V = Seq<SpecCommand>;

    closed spec fn view(&self) -> Seq<SpecCommand> {
        self.rows.deep_view()
    }
}

impl CommandTable {
    /// The uniqueness constraint holds.
    pub open spec fn wf(&self) -> bool {
        keys_unique(self@)
    }

    /// An empty table.
    pub fn new() -> (r: CommandTable)
        ensures
            r@ == Seq::<SpecCommand>::empty(),
            r.wf(),
    {
        let r = CommandTable { rows: Vec::new() };
        proof {
            assert(r@ =~= Seq::<SpecCommand>::empty());
        }
        r
    }

    /// How many rules the table holds.
    pub fn len(&self) -> (n: usize)
        ensures
            n == self@.len(),
    {
        self.rows.len()
    }

    /// Index of the rule carrying the key, if any.
    fn find_key(&self, channel: &str, match_expression: &str) -> (r: Option<usize>)
        ensures
            match r {
                Some(i) => i < self@.len() && Some(i as int) == spec_key_index(
                    self@,
                    channel@,
                    match_expression@,
                ),
                None => spec_key_index(self@, channel@, match_expression@) is None,
            },
    {
        let n: usize = self.rows.len();
        let mut k: usize = 0;
        while k < n
            invariant
                k <= n,
                n == self@.len(),
                n == self.rows.len(),
                spec_key_index(self@, channel@, match_expression@) == spec_key_index_from(
                    self@,
                    channel@,
                    match_expression@,
                    k as int,
                ),
            decreases n - k,
        {
            let row = &self.rows[k];
            if str_eq(row.channel.as_str(), channel) && str_eq(
                row.match_expression.as_str(),
                match_expression,
            ) {
                assert(spec_has_key(self@[k as int], channel@, match_expression@));
                return Some(k);
            }
            assert(!spec_has_key(self@[k as int], channel@, match_expression@));
            k += 1;
        }
        None
    }

    /// Insert `r`, replacing the rule with the same key if one exists.
    /// Returns the affected-row count in the storage engine's replace
    /// convention: `2` when an existing row was replaced (one deleted, one
    /// written), `1` when the rule was new — always positive.
    pub fn upsert(&mut self, r: CreateCommand) -> (count: usize)
        requires
            old(self).wf(),
        ensures
            final(self).wf(),
            final(self)@ == spec_upsert(old(self)@, r@),
            spec_contains_key(old(self)@, r@.channel, r@.match_expression) ==> count == 2,
            !spec_contains_key(old(self)@, r@.channel, r@.match_expression) ==> count == 1,
            count > 0,
            spec_lookup(final(self)@, r@.channel, r@.match_expression) == Some(r@.response_text),
    {
        proof {
            lemma_key_index_contains(self@, r@.channel, r@.match_expression);
            lemma_key_index_from_props(self@, r@.channel, r@.match_expression, 0);
        }
        let idx = self.find_key(r.channel.as_str(), r.match_expression.as_str());
        match idx {
            Some(i) => {
                self.rows.set(i, r.into_command());
                proof {
                    assert(final(self)@ =~= spec_upsert(old(self)@, r@));
                    lemma_upsert_wf(old(self)@, r@);
                    lemma_upsert_lookup(old(self)@, r@);
                }
                2
            },
            None => {
                self.rows.push(r.into_command());
                proof {
                    assert(final(self)@ =~= spec_upsert(old(self)@, r@));
                    lemma_upsert_wf(old(self)@, r@);
                    lemma_upsert_lookup(old(self)@, r@);
                }
                1
            },
        }
    }

    /// Delete the rule carrying the key, if one exists.  Returns the
    /// affected-row count: `1` when a rule was deleted, `0` when nothing
    /// matched — in which case the table is untouched.
    pub fn remove(&mut self, r: &RemoveCommand) -> (count: usize)
        requires
            old(self).wf(),
        ensures
            final(self).wf(),
            final(self)@ == spec_remove_key(old(self)@, r.channel@, r.match_expression@),
            spec_contains_key(old(self)@, r.channel@, r.match_expression@) ==> count == 1,
            !spec_contains_key(old(self)@, r.channel@, r.match_expression@) ==> count == 0
                && final(self)@ == old(self)@,
            !spec_contains_key(final(self)@, r.channel@, r.match_expression@),
    {
        proof {
            lemma_key_index_contains(self@, r.channel@, r.match_expression@);
            lemma_key_index_from_props(self@, r.channel@, r.match_expression@, 0);
        }
        let idx = self.find_key(r.channel.as_str(), r.match_expression.as_str());
        match idx {
            Some(i) => {
                self.rows.remove(i);
                proof {
                    assert(final(self)@ =~= old(self)@.remove(i as int));
                    lemma_remove_wf(old(self)@, r.channel@, r.match_expression@);
                }
                1
            },
            None => {
                0
            },
        }
    }

    /// A copy of every rule, in table order.
    pub fn list_all(&self) -> (r: Vec<Command>)
        ensures
            r.deep_view() == self@,
    {
        let n: usize = self.rows.len();
        let mut out: Vec<Command> = Vec::new();
        let mut k: usize = 0;
        while k < n
            invariant
                k <= n,
                n == self.rows.len(),
                n == self@.len(),
                out@.len() == k as int,
                forall|i: int| 0 <= i < k as int ==> (#[trigger] out@[i]).deep_view() == self@[i],
            decreases n - k,
        {
            let row = &self.rows[k];
            let c = row.clone();
            assert(c.deep_view() == self@[k as int]);
            out.push(c);
            k += 1;
        }
        proof {
            assert forall|i: int| 0 <= i < n as int implies out.deep_view()[i] == self@[i] by {
                assert(out.deep_view()[i] == out@[i].deep_view());
            }
            assert(out.deep_view() =~= self@);
        }
        out
    }
}

/// Replace-on-conflict keeps the uniqueness constraint.
pub proof fn lemma_upsert_wf(s: Seq<SpecCommand>, r: SpecCommand)
    requires
        keys_unique(s),
    ensures
        keys_unique(spec_upsert(s, r)),
{
    lemma_key_index_from_props(s, r.channel, r.match_expression, 0);
    match spec_key_index(s, r.channel, r.match_expression) {
        Some(i) => {
            let t = s.update(i, r);
            assert forall|a: int, b: int| 0 <= a < b < t.len() implies !spec_key_eq(
                #[trigger] t[a],
                #[trigger] t[b],
            ) by {
                assert(!spec_key_eq(s[a], s[b]));
            }
        },
        None => {
            let t = s.push(r);
            assert forall|a: int, b: int| 0 <= a < b < t.len() implies !spec_key_eq(
                #[trigger] t[a],
                #[trigger] t[b],
            ) by {
                if b < s.len() {
                    assert(!spec_key_eq(s[a], s[b]));
                } else {
                    assert(t[b] == r);
                    assert(!spec_has_key(s[a], r.channel, r.match_expression));
                }
            }
        },
    }
}

/// After replace-on-conflict, the key maps to the new response text.
pub proof fn lemma_upsert_lookup(s: Seq<SpecCommand>, r: SpecCommand)
    ensures
        spec_lookup(spec_upsert(s, r), r.channel, r.match_expression) == Some(r.response_text),
        spec_contains_key(spec_upsert(s, r), r.channel, r.match_expression),
{
    lemma_key_index_from_props(s, r.channel, r.match_expression, 0);
    let t = spec_upsert(s, r);
    match spec_key_index(s, r.channel, r.match_expression) {
        Some(i) => {
            lemma_key_index_from_props(t, r.channel, r.match_expression, 0);
            assert(spec_has_key(t[i], r.channel, r.match_expression));
            match spec_key_index(t, r.channel, r.match_expression) {
                Some(i2) => {
                    lemma_key_index_first_match(t, r.channel, r.match_expression, i);
                },
                None => {
                    assert(false);
                },
            }
        },
        None => {
            let i = s.len() as int;
            assert(spec_has_key(t[i], r.channel, r.match_expression));
            lemma_key_index_first_match(t, r.channel, r.match_expression, i);
        },
    }
}

/// If `i` is a matching index and nothing before it matches, the first-match
/// index is exactly `i`.
pub proof fn lemma_key_index_first_match(
    s: Seq<SpecCommand>,
    channel: Seq<char>,
    match_expression: Seq<char>,
    i: int,
)
    requires
        0 <= i < s.len(),
        spec_has_key(s[i], channel, match_expression),
        forall|j: int| 0 <= j < i ==> !spec_has_key(#[trigger] s[j], channel, match_expression),
    ensures
        spec_key_index(s, channel, match_expression) == Some(i),
{
    lemma_key_index_from_props(s, channel, match_expression, 0);
    match spec_key_index(s, channel, match_expression) {
        Some(k) => {
            if k < i {
                assert(!spec_has_key(s[k], channel, match_expression));
            }
            if i < k {
                assert(!spec_has_key(s[i], channel, match_expression));
            }
        },
        None => {
            assert(!spec_has_key(s[i], channel, match_expression));
        },
    }
}

/// Under the uniqueness constraint a key is counted at most once: exactly
/// once when some row carries it, zero times otherwise.
pub proof fn lemma_unique_count(s: Seq<SpecCommand>, channel: Seq<char>, match_expression: Seq<char>)
    requires
        keys_unique(s),
    ensures
        spec_count_key(s, channel, match_expression) == if spec_contains_key(
            s,
            channel,
            match_expression,
        ) {
            1nat
        } else {
            0nat
        },
    decreases s.len(),
{
    if s.len() == 0 {
        assert(!spec_contains_key(s, channel, match_expression));
    } else {
        let s0 = s.drop_last();
        let last = s.len() - 1;
        assert(keys_unique(s0)) by {
            assert forall|i: int, j: int| 0 <= i < j < s0.len() implies !spec_key_eq(
                #[trigger] s0[i],
                #[trigger] s0[j],
            ) by {
                assert(!spec_key_eq(s[i], s[j]));
            }
        }
        lemma_unique_count(s0, channel, match_expression);
        if spec_has_key(s.last(), channel, match_expression) {
            assert(spec_contains_key(s, channel, match_expression));
            assert forall|i: int| 0 <= i < s0.len() implies !spec_has_key(
                #[trigger] s0[i],
                channel,
                match_expression,
            ) by {
                assert(!spec_key_eq(s[i], s[last]));
            }
            assert(!spec_contains_key(s0, channel, match_expression));
        } else {
            if spec_contains_key(s, channel, match_expression) {
                let w = choose|i: int|
                    0 <= i < s.len() && spec_has_key(#[trigger] s[i], channel, match_expression);
                assert(w != last);
                assert(spec_has_key(s0[w], channel, match_expression));
                assert(spec_contains_key(s0, channel, match_expression));
            }
            if spec_contains_key(s0, channel, match_expression) {
                let w = choose|i: int|
                    0 <= i < s0.len() && spec_has_key(#[trigger] s0[i], channel, match_expression);
                assert(spec_has_key(s[w], channel, match_expression));
                assert(spec_contains_key(s, channel, match_expression));
            }
        }
    }
}

/// Law: for rules with the same `(channel, match_expression)` key, a second
/// `set` replaces the first rather than duplicating it.  Inserting `a` and
/// then `b` leaves the same table as inserting `b` alone; the table grows by
/// at most the one row, exactly one row carries the key, and it holds `b`'s
/// response text.
pub proof fn lemma_upsert_replaces(s: Seq<SpecCommand>, a: SpecCommand, b: SpecCommand)
    requires
        keys_unique(s),
        spec_key_eq(a, b),
    ensures
        spec_upsert(spec_upsert(s, a), b) == spec_upsert(s, b),
        spec_upsert(spec_upsert(s, a), b).len() == spec_upsert(s, a).len(),
        spec_lookup(spec_upsert(spec_upsert(s, a), b), b.channel, b.match_expression) == Some(
            b.response_text,
        ),
        spec_count_key(spec_upsert(spec_upsert(s, a), b), b.channel, b.match_expression) == 1,
{
    let ch = b.channel;
    let me = b.match_expression;
    let t1 = spec_upsert(s, a);
    let t2 = spec_upsert(t1, b);
    lemma_upsert_wf(s, a);
    lemma_upsert_lookup(s, a);
    lemma_upsert_wf(t1, b);
    lemma_upsert_lookup(t1, b);
    lemma_key_index_from_props(s, ch, me, 0);
    match spec_key_index(s, ch, me) {
        Some(i) => {
            assert(t1 == s.update(i, a));
            assert(spec_has_key(t1[i], ch, me));
            assert forall|j: int| 0 <= j < i implies !spec_has_key(#[trigger] t1[j], ch, me) by {
                assert(t1[j] == s[j]);
            }
            lemma_key_index_first_match(t1, ch, me, i);
            assert(t2 == t1.update(i, b));
            assert(t2 =~= s.update(i, b));
        },
        None => {
            assert(t1 == s.push(a));
            let i = s.len() as int;
            assert(spec_has_key(t1[i], ch, me));
            assert forall|j: int| 0 <= j < i implies !spec_has_key(#[trigger] t1[j], ch, me) by {
                assert(t1[j] == s[j]);
            }
            lemma_key_index_first_match(t1, ch, me, i);
            assert(t2 == t1.update(i, b));
            assert(t2 =~= s.push(b));
        },
    }
    lemma_unique_count(t2, ch, me);
}

/// Delete-by-key keeps the uniqueness constraint, and under it the deleted
/// key is gone from the result.
pub proof fn lemma_remove_wf(s: Seq<SpecCommand>, channel: Seq<char>, match_expression: Seq<char>)
    requires
        keys_unique(s),
    ensures
        keys_unique(spec_remove_key(s, channel, match_expression)),
        !spec_contains_key(spec_remove_key(s, channel, match_expression), channel, match_expression),
{
    lemma_key_index_from_props(s, channel, match_expression, 0);
    let t = spec_remove_key(s, channel, match_expression);
    match spec_key_index(s, channel, match_expression) {
        Some(i) => {
            assert forall|a: int, b: int| 0 <= a < b < t.len() implies !spec_key_eq(
                #[trigger] t[a],
                #[trigger] t[b],
            ) by {
                let a0 = if a < i { a } else { a + 1 };
                let b0 = if b < i { b } else { b + 1 };
                assert(t[a] == s[a0]);
                assert(t[b] == s[b0]);
                assert(!spec_key_eq(s[a0], s[b0]));
            }
            assert forall|k: int| 0 <= k < t.len() implies !spec_has_key(
                #[trigger] t[k],
                channel,
                match_expression,
            ) by {
                let k0 = if k < i { k } else { k + 1 };
                assert(t[k] == s[k0]);
                if k0 != i && spec_has_key(s[k0], channel, match_expression) {
                    if k0 < i {
                        assert(!spec_key_eq(s[k0], s[i]));
                    } else {
                        assert(!spec_key_eq(s[i], s[k0]));
                    }
                    assert(spec_has_key(s[i], channel, match_expression));
                }
            }
        },
        None => {
            assert forall|k: int| 0 <= k < t.len() implies !spec_has_key(
                #[trigger] t[k],
                channel,
                match_expression,
            ) by {
                assert(t[k] == s[k]);
            }
        },
    }
}

} // verus!
