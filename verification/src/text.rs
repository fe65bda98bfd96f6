use vstd::prelude::*;

use crate::database::client::views_of;

verus! {

/// Whether `sep` occurs nowhere in `t`.
pub open spec fn has_no_char(t: Seq<char>, sep: char) -> bool {
    forall|i: int| 0 <= i < t.len() ==> t[i] != sep
}

/// Whether `sep` occurs in no token of `ts`.
pub open spec fn tokens_free_of(ts: Seq<Seq<char>>, sep: char) -> bool {
    forall|i: int| 0 <= i < ts.len() ==> has_no_char(#[trigger] ts[i], sep)
}

/// The pieces of `s` between occurrences of `sep`, read char by char; `cur`
/// is the piece read so far.
pub open spec fn split_rec(s: Seq<char>, sep: char, cur: Seq<char>) -> Seq<Seq<char>>
    decreases s.len(),
{
    if s.len() == 0 {
        seq![cur]
    } else if s[0] == sep {
        seq![cur] + split_rec(s.skip(1), sep, Seq::empty())
    } else {
        split_rec(s.skip(1), sep, cur.push(s[0]))
    }
}

/// The pieces of `s` between occurrences of `sep`. Splitting never yields
/// fewer than one piece: the empty text splits into one empty piece.
pub open spec fn spec_split(s: Seq<char>, sep: char) -> Seq<Seq<char>> {
    split_rec(s, sep, Seq::empty())
}

/// The tokens of `ts` joined with `sep` between each pair.
pub open spec fn spec_join(ts: Seq<Seq<char>>, sep: char) -> Seq<char>
    decreases ts.len(),
{
    if ts.len() == 0 {
        Seq::empty()
    } else if ts.len() == 1 {
        ts[0]
    } else {
        ts[0] + seq![sep] + spec_join(ts.skip(1), sep)
    }
}

/// Splitting always yields at least one piece.
pub proof fn lemma_split_rec_len(s: Seq<char>, sep: char, cur: Seq<char>)
    ensures
        split_rec(s, sep, cur).len() >= 1,
    decreases s.len(),
{
    if s.len() == 0 {
    } else if s[0] == sep {
    } else {
        lemma_split_rec_len(s.skip(1), sep, cur.push(s[0]));
    }
}

/// Splitting text free of the separator yields the one piece `cur + s`.
proof fn lemma_split_rec_no_sep(s: Seq<char>, sep: char, cur: Seq<char>)
    requires
        has_no_char(s, sep),
    ensures
        split_rec(s, sep, cur) == seq![cur + s],
    decreases s.len(),
{
    if s.len() == 0 {
        assert(cur + s =~= cur);
    } else {
        assert(s[0] != sep);
        assert(has_no_char(s.skip(1), sep)) by {
            assert(forall|i: int| 0 <= i < s.skip(1).len() ==> s.skip(1)[i] == s[i + 1]);
        }
        lemma_split_rec_no_sep(s.skip(1), sep, cur.push(s[0]));
        assert(cur.push(s[0]) + s.skip(1) =~= cur + s);
    }
}

/// Splitting `a + sep + b` with `a` free of the separator yields `cur + a`
/// and then the pieces of `b`.
proof fn lemma_split_rec_sep_at(a: Seq<char>, b: Seq<char>, sep: char, cur: Seq<char>)
    requires
        has_no_char(a, sep),
    ensures
        split_rec(a + seq![sep] + b, sep, cur) == seq![cur + a] + split_rec(b, sep, Seq::empty()),
    decreases a.len(),
{
    let s = a + seq![sep] + b;
    if a.len() == 0 {
        assert(s[0] == sep);
        assert(s.skip(1) =~= b);
        assert(cur + a =~= cur);
    } else {
        assert(s[0] == a[0]);
        assert(a[0] != sep);
        assert(has_no_char(a.skip(1), sep)) by {
            assert(forall|i: int| 0 <= i < a.skip(1).len() ==> a.skip(1)[i] == a[i + 1]);
        }
        lemma_split_rec_sep_at(a.skip(1), b, sep, cur.push(a[0]));
        assert(s.skip(1) =~= a.skip(1) + seq![sep] + b);
        assert(cur.push(a[0]) + a.skip(1) =~= cur + a);
    }
}

/// Splitting what was joined gives the tokens back, as long as no token
/// holds the separator.
pub proof fn lemma_split_join(ts: Seq<Seq<char>>, sep: char)
    requires
        ts.len() >= 1,
        tokens_free_of(ts, sep),
    ensures
        spec_split(spec_join(ts, sep), sep) == ts,
    decreases ts.len(),
{
    if ts.len() == 1 {
        lemma_split_rec_no_sep(ts[0], sep, Seq::empty());
        assert(Seq::<char>::empty() + ts[0] =~= ts[0]);
        assert(seq![ts[0]] =~= ts);
    } else {
        let rest = ts.skip(1);
        assert(tokens_free_of(rest, sep)) by {
            assert(forall|i: int| 0 <= i < rest.len() ==> rest[i] == ts[i + 1]);
        }
        lemma_split_join(rest, sep);
        lemma_split_rec_sep_at(ts[0], spec_join(rest, sep), sep, Seq::empty());
        assert(Seq::<char>::empty() + ts[0] =~= ts[0]);
        assert(seq![ts[0]] + rest =~= ts);
    }
}

/// Joining the pieces of a split gives the text back.
proof fn lemma_join_split_rec(s: Seq<char>, sep: char, cur: Seq<char>)
    ensures
        spec_join(split_rec(s, sep, cur), sep) == cur + s,
    decreases s.len(),
{
    if s.len() == 0 {
        assert(cur + s =~= cur);
    } else if s[0] == sep {
        lemma_join_split_rec(s.skip(1), sep, Seq::empty());
        lemma_split_rec_len(s.skip(1), sep, Seq::empty());
        let rest = split_rec(s.skip(1), sep, Seq::empty());
        let whole = seq![cur] + rest;
        assert(whole.len() >= 2);
        assert(whole[0] == cur);
        assert(whole.skip(1) =~= rest);
        assert(Seq::<char>::empty() + s.skip(1) =~= s.skip(1));
        assert(cur + seq![sep] + s.skip(1) =~= cur + s);
    } else {
        lemma_join_split_rec(s.skip(1), sep, cur.push(s[0]));
        assert(cur.push(s[0]) + s.skip(1) =~= cur + s);
    }
}

/// Joining the pieces of a split gives the text back.
pub proof fn lemma_join_split(s: Seq<char>, sep: char)
    ensures
        spec_join(spec_split(s, sep), sep) == s,
{
    lemma_join_split_rec(s, sep, Seq::empty());
    assert(Seq::<char>::empty() + s =~= s);
}

/// Joining one more token appends one separator and the token.
pub proof fn lemma_join_push(ts: Seq<Seq<char>>, t: Seq<char>, sep: char)
    requires
        ts.len() >= 1,
    ensures
        spec_join(ts.push(t), sep) == spec_join(ts, sep) + seq![sep] + t,
    decreases ts.len(),
{
    if ts.len() == 1 {
        let w = ts.push(t);
        assert(w.len() == 2);
        assert(w[0] == ts[0]);
        assert(w.skip(1) =~= seq![t]);
        assert(spec_join(seq![t], sep) == t);
    } else {
        lemma_join_push(ts.skip(1), t, sep);
        let w = ts.push(t);
        assert(w[0] == ts[0]);
        assert(w.skip(1) =~= ts.skip(1).push(t));
        assert(ts[0] + seq![sep] + (spec_join(ts.skip(1), sep) + seq![sep] + t) =~= (ts[0]
            + seq![sep] + spec_join(ts.skip(1), sep)) + seq![sep] + t);
    }
}

/// Splits `s` at every occurrence of `sep`, in order.
pub fn split_str(s: &str, sep: char) -> (r: Vec<String>)
    ensures
        views_of(r@) == spec_split(s@, sep),
{
    let n = s.unicode_len();
    let mut out: Vec<String> = Vec::new();
    let mut start: usize = 0;
    let mut i: usize = 0;
    proof {
        assert(s@.skip(0) =~= s@);
        assert(s@.subrange(0, 0) =~= Seq::<char>::empty());
        assert(views_of(out@) =~= Seq::<Seq<char>>::empty());
        assert(Seq::<Seq<char>>::empty() + spec_split(s@, sep) =~= spec_split(s@, sep));
    }
    while i < n
        invariant
            0 <= start <= i <= n,
            n == s@.len(),
            spec_split(s@, sep) == views_of(out@) + split_rec(
                s@.skip(i as int),
                sep,
                s@.subrange(start as int, i as int),
            ),
        decreases n - i,
    {
        let ghost cur = s@.subrange(start as int, i as int);
        let c = s.get_char(i);
        if c == sep {
            let token = s.substring_char(start, i).to_owned();
            let ghost prev = out@;
            out.push(token);
            proof {
                assert(s@.skip(i as int)[0] == sep);
                assert(s@.skip(i as int).skip(1) =~= s@.skip(i as int + 1));
                assert(split_rec(s@.skip(i as int), sep, cur) == seq![cur] + split_rec(
                    s@.skip(i as int + 1),
                    sep,
                    Seq::empty(),
                ));
                assert(views_of(out@) =~= views_of(prev).push(cur));
                assert(views_of(prev).push(cur) =~= views_of(prev) + seq![cur]);
                assert(s@.subrange(i as int + 1, i as int + 1) =~= Seq::<char>::empty());
                assert(views_of(out@) + split_rec(
                    s@.skip(i as int + 1),
                    sep,
                    s@.subrange(i as int + 1, i as int + 1),
                ) =~= (views_of(prev) + seq![cur]) + split_rec(
                    s@.skip(i as int + 1),
                    sep,
                    Seq::empty(),
                ));
            }
            start = i + 1;
        } else {
            proof {
                assert(s@.skip(i as int)[0] == c);
                assert(s@.skip(i as int).skip(1) =~= s@.skip(i as int + 1));
                assert(split_rec(s@.skip(i as int), sep, cur) == split_rec(
                    s@.skip(i as int + 1),
                    sep,
                    cur.push(c),
                ));
                assert(cur.push(c) =~= s@.subrange(start as int, i as int + 1));
            }
        }
        i += 1;
    }
    let token = s.substring_char(start, n).to_owned();
    let ghost prev = out@;
    out.push(token);
    proof {
        assert(s@.skip(n as int) =~= Seq::<char>::empty());
        assert(split_rec(s@.skip(n as int), sep, s@.subrange(start as int, n as int)) == seq![
            s@.subrange(start as int, n as int),
        ]);
        assert(views_of(out@) =~= views_of(prev).push(s@.subrange(start as int, n as int)));
        assert(views_of(out@) =~= views_of(prev) + seq![s@.subrange(start as int, n as int)]);
    }
    out
}

/// Joins the tokens with a comma between each pair.
pub fn join_commas(tokens: &Vec<String>) -> (r: String)
    requires
        tokens@.len() >= 1,
    ensures
        r@ == spec_join(views_of(tokens@), ','),
{
    let mut out = tokens[0].clone();
    proof {
        assert(views_of(tokens@).len() == tokens@.len());
        assert(views_of(tokens@).take(1) =~= seq![tokens@[0]@]);
        assert(spec_join(seq![tokens@[0]@], ',') == tokens@[0]@);
    }
    let mut i: usize = 1;
    let n = tokens.len();
    while i < n
        invariant
            1 <= i <= n,
            n == tokens@.len(),
            out@ == spec_join(views_of(tokens@).take(i as int), ','),
        decreases n - i,
    {
        out.append(",");
        out.append(tokens[i].as_str());
        proof {
            reveal_strlit(",");
            assert(","@ =~= seq![',']);
            lemma_join_push(views_of(tokens@).take(i as int), tokens@[i as int]@, ',');
            assert(views_of(tokens@).take(i as int).len() >= 1);
            assert(views_of(tokens@).take(i as int + 1) =~= views_of(tokens@).take(i as int).push(
                tokens@[i as int]@,
            ));
        }
        i += 1;
    }
    proof {
        assert(views_of(tokens@).take(n as int) =~= views_of(tokens@));
    }
    out
}

} // verus!
