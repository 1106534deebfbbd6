use vstd::prelude::*;

verus! {

/// The delimiter `d` occurs in `s` starting at position `i`.
pub open spec fn is_delim_at(s: Seq<char>, i: int, d: Seq<char>) -> bool {
    0 <= i && i + d.len() <= s.len() && s.subrange(i, i + d.len()) == d
}

/// Greedy left-to-right split of `s` on the delimiter `d`, carrying the
/// field collected so far in `acc`.
pub open spec fn split_go(s: Seq<char>, d: Seq<char>, acc: Seq<char>) -> Seq<Seq<char>>
    decreases s.len(),
{
    if d.len() > 0 && is_delim_at(s, 0, d) {
        seq![acc] + split_go(s.skip(d.len() as int), d, Seq::empty())
    } else if s.len() == 0 {
        seq![acc]
    } else {
        split_go(s.skip(1), d, acc.push(s[0]))
    }
}

/// The fields of `s` split on the delimiter `d`.
pub open spec fn split_spec(s: Seq<char>, d: Seq<char>) -> Seq<Seq<char>> {
    split_go(s, d, Seq::empty())
}

/// No character of `f` equals `c`; a field clean of the delimiter's first
/// character can never start a delimiter occurrence.
pub open spec fn field_clean(f: Seq<char>, c: char) -> bool {
    forall|i: int| 0 <= i < f.len() ==> (#[trigger] f[i]) != c
}

/// Splitting text free of the delimiter's first character yields it whole.
pub proof fn lemma_split_no_delim(s: Seq<char>, d: Seq<char>, acc: Seq<char>)
    requires
        d.len() > 0,
        field_clean(s, d[0]),
    ensures
        split_go(s, d, acc) == seq![acc + s],
    decreases s.len(),
{
    if s.len() == 0 {
        assert(acc + s =~= acc);
        assert(!is_delim_at(s, 0, d));
    } else {
        assert(!is_delim_at(s, 0, d)) by {
            if is_delim_at(s, 0, d) {
                assert(s.subrange(0, d.len() as int)[0] == s[0]);
            }
        }
        assert(field_clean(s.skip(1), d[0])) by {
            assert(forall|i: int| 0 <= i < s.skip(1).len() ==> (#[trigger] s.skip(1)[i]) == s[i + 1]);
        }
        lemma_split_no_delim(s.skip(1), d, acc.push(s[0]));
        assert(acc.push(s[0]) + s.skip(1) =~= acc + s);
    }
}

/// Splitting `a + d + rest` closes the field `acc + a` and goes on with
/// `rest`, provided `a` is clean of the delimiter's first character.
pub proof fn lemma_split_field(a: Seq<char>, d: Seq<char>, rest: Seq<char>, acc: Seq<char>)
    requires
        d.len() > 0,
        field_clean(a, d[0]),
    ensures
        split_go(a + d + rest, d, acc) == seq![acc + a] + split_go(rest, d, Seq::empty()),
    decreases a.len(),
{
    let s = a + d + rest;
    if a.len() == 0 {
        assert(is_delim_at(s, 0, d)) by {
            assert(s.subrange(0, d.len() as int) =~= d);
        }
        assert(s.skip(d.len() as int) =~= rest);
        assert(acc + a =~= acc);
    } else {
        assert(s[0] == a[0]);
        assert(!is_delim_at(s, 0, d)) by {
            if is_delim_at(s, 0, d) {
                assert(s.subrange(0, d.len() as int)[0] == s[0]);
            }
        }
        assert(s.len() > 0);
        assert(s.skip(1) =~= a.skip(1) + d + rest);
        assert(field_clean(a.skip(1), d[0])) by {
            assert(forall|i: int| 0 <= i < a.skip(1).len() ==> (#[trigger] a.skip(1)[i]) == a[i + 1]);
        }
        lemma_split_field(a.skip(1), d, rest, acc.push(a[0]));
        assert(acc.push(a[0]) + a.skip(1) =~= acc + a);
    }
}

/// Text assembled from fields joined by the delimiter `d`.
pub open spec fn join_with(fields: Seq<Seq<char>>, d: Seq<char>) -> Seq<char>
    decreases fields.len(),
{
    if fields.len() == 0 {
        Seq::empty()
    } else if fields.len() == 1 {
        fields[0]
    } else {
        fields[0] + d + join_with(fields.drop_first(), d)
    }
}

/// Round trip: splitting a join of delimiter-clean fields gives back
/// exactly those fields.
pub proof fn lemma_split_join(fields: Seq<Seq<char>>, d: Seq<char>)
    requires
        d.len() > 0,
        fields.len() >= 1,
        forall|k: int| 0 <= k < fields.len() ==> field_clean(#[trigger] fields[k], d[0]),
    ensures
        split_spec(join_with(fields, d), d) == fields,
    decreases fields.len(),
{
    if fields.len() == 1 {
        lemma_split_no_delim(fields[0], d, Seq::empty());
        assert(Seq::<char>::empty() + fields[0] =~= fields[0]);
        assert(seq![fields[0]] =~= fields);
    } else {
        let rest = fields.drop_first();
        lemma_split_field(fields[0], d, join_with(rest, d), Seq::empty());
        assert(forall|k: int|
            0 <= k < rest.len() ==> field_clean(#[trigger] rest[k], d[0]) && rest[k] == fields[k
                + 1]);
        lemma_split_join(rest, d);
        assert(Seq::<char>::empty() + fields[0] =~= fields[0]);
        assert(seq![fields[0]] + rest =~= fields);
    }
}

} // verus!
