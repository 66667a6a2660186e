//! Character-level text helpers: splitting on commas, trimming, joining and ordering.
use vstd::prelude::*;
use vstd::string::StrSliceExecFns;
use vstd::string::StringExecFns;

verus! {

broadcast use vstd::string::group_string_axioms;

// ---------------------------------------------------------------------------
// Specifications
// ---------------------------------------------------------------------------

/// The characters that carry the Unicode `White_Space` property
/// (what `char::is_whitespace` accepts).
pub open spec fn is_white_space(c: char) -> bool {
    let u = c as u32;
    ||| 0x9 <= u <= 0xD
    ||| u == 0x20
    ||| u == 0x85
    ||| u == 0xA0
    ||| u == 0x1680
    ||| 0x2000 <= u <= 0x200A
    ||| u == 0x2028
    ||| u == 0x2029
    ||| u == 0x202F
    ||| u == 0x205F
    ||| u == 0x3000
}

/// `s` without its leading white space.
pub open spec fn trim_start(s: Seq<char>) -> Seq<char>
    decreases s.len(),
{
    if s.len() > 0 && is_white_space(s[0]) {
        trim_start(s.drop_first())
    } else {
        s
    }
}

/// `s` without its trailing white space.
pub open spec fn trim_end(s: Seq<char>) -> Seq<char>
    decreases s.len(),
{
    if s.len() > 0 && is_white_space(s.last()) {
        trim_end(s.drop_last())
    } else {
        s
    }
}

/// `s` without leading and trailing white space (what `str::trim` returns).
pub open spec fn trim(s: Seq<char>) -> Seq<char> {
    trim_end(trim_start(s))
}

/// The pieces of `s` between commas, in order (what `str::split(',')` yields).
/// There is always at least one piece; the text without commas is one piece.
pub open spec fn fields(s: Seq<char>) -> Seq<Seq<char>>
    decreases s.len(),
{
    if s.len() == 0 {
        seq![Seq::<char>::empty()]
    } else {
        let prev = fields(s.drop_last());
        if s.last() == ',' {
            prev.push(Seq::<char>::empty())
        } else {
            prev.update(prev.len() - 1, prev.last().push(s.last()))
        }
    }
}

/// Each piece trimmed, and the pieces that are empty after trimming left out.
pub open spec fn kept_entries(parts: Seq<Seq<char>>) -> Seq<Seq<char>>
    decreases parts.len(),
{
    if parts.len() == 0 {
        Seq::<Seq<char>>::empty()
    } else {
        let rest = kept_entries(parts.drop_last());
        let t = trim(parts.last());
        if t.len() == 0 {
            rest
        } else {
            rest.push(t)
        }
    }
}

/// The entries of a comma separated list: split on ',', each trimmed,
/// the empty ones dropped.
pub open spec fn comma_list(s: Seq<char>) -> Seq<Seq<char>> {
    kept_entries(fields(s))
}

/// The pieces glued together with `sep` between each two (what `join` returns).
pub open spec fn joined(parts: Seq<Seq<char>>, sep: Seq<char>) -> Seq<char>
    decreases parts.len(),
{
    if parts.len() == 0 {
        Seq::<char>::empty()
    } else if parts.len() == 1 {
        parts[0]
    } else {
        joined(parts.drop_last(), sep) + sep + parts.last()
    }
}

/// The texts of a sequence of strings.
pub open spec fn texts(v: Seq<String>) -> Seq<Seq<char>> {
    v.map_values(|s: String| s@)
}

/// `a` comes strictly before `b` in lexicographic order of code points
/// (the order of `String`'s `<`).
pub open spec fn precedes(a: Seq<char>, b: Seq<char>) -> bool
    decreases a.len(),
{
    if b.len() == 0 {
        false
    } else if a.len() == 0 {
        true
    } else if a[0] == b[0] {
        precedes(a.drop_first(), b.drop_first())
    } else {
        (a[0] as int) < (b[0] as int)
    }
}

/// An entry that a comma separated list can hold and give back unchanged:
/// not empty, without a comma, and without white space at either end.
pub open spec fn clean_entry(e: Seq<char>) -> bool {
    &&& e.len() > 0
    &&& !e.contains(',')
    &&& !is_white_space(e[0])
    &&& !is_white_space(e.last())
}

/// Every entry is clean.
pub open spec fn clean_entries(parts: Seq<Seq<char>>) -> bool {
    forall|i: int| 0 <= i < parts.len() ==> clean_entry(#[trigger] parts[i])
}

// ---------------------------------------------------------------------------
// Facts about the specifications
// ---------------------------------------------------------------------------

/// Lexicographic order is transitive.
pub proof fn lemma_precedes_transitive(a: Seq<char>, b: Seq<char>, c: Seq<char>)
    requires
        precedes(a, b),
        precedes(b, c),
    ensures
        precedes(a, c),
    decreases a.len(),
{
    if a.len() > 0 && b.len() > 0 && c.len() > 0 && a[0] == b[0] && b[0] == c[0] {
        lemma_precedes_transitive(a.drop_first(), b.drop_first(), c.drop_first());
    }
}

/// Two different texts are ordered one way or the other, never both.
pub proof fn lemma_precedes_total(a: Seq<char>, b: Seq<char>)
    ensures
        a != b ==> (precedes(a, b) || precedes(b, a)),
        !(precedes(a, b) && precedes(b, a)),
    decreases a.len(),
{
    if a.len() > 0 && b.len() > 0 {
        lemma_precedes_total(a.drop_first(), b.drop_first());
        if a[0] == b[0] && a != b {
            assert(a =~= seq![a[0]] + a.drop_first());
            assert(b =~= seq![b[0]] + b.drop_first());
        }
    } else if a.len() == 0 && b.len() == 0 {
        assert(a =~= b);
    }
}

/// There is always at least one field.
pub proof fn lemma_fields_nonempty(s: Seq<char>)
    ensures
        fields(s).len() >= 1,
    decreases s.len(),
{
    if s.len() > 0 {
        lemma_fields_nonempty(s.drop_last());
    }
}

/// Appending a comma starts a new, empty field.
pub proof fn lemma_fields_push_comma(s: Seq<char>)
    ensures
        fields(s.push(',')) == fields(s).push(Seq::<char>::empty()),
{
    assert(s.push(',').drop_last() =~= s);
}

/// Appending text without commas extends the last field.
pub proof fn lemma_fields_append_plain(s: Seq<char>, t: Seq<char>)
    requires
        !t.contains(','),
    ensures
        fields(s + t) == fields(s).update(fields(s).len() - 1, fields(s).last() + t),
    decreases t.len(),
{
    lemma_fields_nonempty(s);
    if t.len() == 0 {
        assert(s + t =~= s);
        assert(fields(s).last() + t =~= fields(s).last());
        assert(fields(s).update(fields(s).len() - 1, fields(s).last()) =~= fields(s));
    } else {
        let t0 = t.drop_last();
        assert(!t0.contains(',')) by {
            if t0.contains(',') {
                let k = choose|k: int| 0 <= k < t0.len() && t0[k] == ',';
                assert(t[k] == ',');
            }
        }
        lemma_fields_append_plain(s, t0);
        assert((s + t).drop_last() =~= s + t0);
        assert(t[t.len() - 1] != ',');
        assert((s + t).last() == t.last());
        let f = fields(s);
        let g = fields(s + t0);
        assert(g.len() == f.len());
        assert(g.last() =~= f.last() + t0);
        assert((f.last() + t0).push(t.last()) =~= f.last() + t);
        assert(g.update(g.len() - 1, g.last().push(t.last())) =~= f.update(
            f.len() - 1,
            f.last() + t,
        ));
    }
}

/// Trimming a text whose ends are not white space leaves it unchanged.
pub proof fn lemma_trim_of_trimmed(s: Seq<char>)
    requires
        s.len() > 0,
        !is_white_space(s[0]),
        !is_white_space(s.last()),
    ensures
        trim(s) == s,
{
}

/// A leading space is removed by trimming.
pub proof fn lemma_trim_leading_space(s: Seq<char>)
    ensures
        trim(seq![' '] + s) == trim(s),
{
    let t = seq![' '] + s;
    assert(is_white_space(' '));
    assert(t.drop_first() =~= s);
}

/// The exact reading back of a list written by `joined` with `", "`:
/// entries that are not empty, hold no comma and start and end with a
/// character that is not white space come back unchanged.
pub proof fn lemma_comma_list_of_joined(parts: Seq<Seq<char>>)
    requires
        clean_entries(parts),
    ensures
        comma_list(joined(parts, seq![',', ' '])) == parts,
        fields(joined(parts, seq![',', ' '])).len() == (if parts.len() == 0 {
            1
        } else {
            parts.len() as int
        }),
    decreases parts.len(),
{
    let sep = seq![',', ' '];
    if parts.len() == 0 {
        assert(fields(Seq::<char>::empty()) =~= seq![Seq::<char>::empty()]);
        let e = Seq::<Seq<char>>::empty();
        assert(seq![Seq::<char>::empty()].drop_last() =~= e);
        let one = seq![Seq::<char>::empty()];
        assert(one.last() == Seq::<char>::empty());
        assert(trim(Seq::<char>::empty()).len() == 0);
        assert(kept_entries(one.drop_last()) =~= e);
        assert(kept_entries(one) =~= e);
    } else if parts.len() == 1 {
        let p = parts[0];
        assert(clean_entry(p));
        assert(joined(parts, sep) == p);
        lemma_fields_append_plain(Seq::<char>::empty(), p);
        assert(Seq::<char>::empty() + p =~= p);
        assert(fields(p) =~= seq![p]) by {
            assert(fields(Seq::<char>::empty()) =~= seq![Seq::<char>::empty()]);
            assert(Seq::<char>::empty() + p =~= p);
        }
        lemma_trim_of_trimmed(p);
        assert(seq![p].drop_last() =~= Seq::<Seq<char>>::empty());
        assert(kept_entries(Seq::<Seq<char>>::empty()) =~= Seq::<Seq<char>>::empty());
        assert(trim(seq![p].last()) == p);
        assert(kept_entries(seq![p]) =~= seq![p]);
        assert(parts =~= seq![p]);
    } else {
        let init = parts.drop_last();
        let p = parts.last();
        assert forall|i: int| 0 <= i < init.len() implies clean_entry(#[trigger] init[i]) by {
            assert(init[i] == parts[i]);
        }
        lemma_comma_list_of_joined(init);
        let a = joined(init, sep);
        assert(joined(parts, sep) == a + sep + p);
        let fa = fields(a);
        // a + ","
        let a1 = a.push(',');
        lemma_fields_push_comma(a);
        assert(clean_entry(parts[parts.len() - 1]));
        // a + ", " + p = a1 + (" " + p)
        let tail = seq![' '] + p;
        assert(a + sep + p =~= a1 + tail);
        assert(!tail.contains(',')) by {
            if tail.contains(',') {
                let k = choose|k: int| 0 <= k < tail.len() && tail[k] == ',';
                assert(k > 0);
                assert(p[k - 1] == ',');
            }
        }
        lemma_fields_append_plain(a1, tail);
        let f1 = fields(a1);
        assert(f1 == fa.push(Seq::<char>::empty()));
        assert(Seq::<char>::empty() + tail =~= tail);
        let whole = fields(a + sep + p);
        assert(whole =~= fa.push(tail));
        assert(whole.drop_last() =~= fa);
        lemma_trim_leading_space(p);
        lemma_trim_of_trimmed(p);
        assert(trim(whole.last()) == p);
        assert(kept_entries(whole) == kept_entries(fa).push(p));
        assert(kept_entries(fa) == init);
        assert(init.push(p) =~= parts);
    }
}

/// No field holds a comma.
pub proof fn lemma_fields_have_no_comma(s: Seq<char>)
    ensures
        forall|i: int| 0 <= i < fields(s).len() ==> !(#[trigger] fields(s)[i]).contains(','),
    decreases s.len(),
{
    if s.len() > 0 {
        let prev = fields(s.drop_last());
        lemma_fields_have_no_comma(s.drop_last());
        lemma_fields_nonempty(s.drop_last());
        if s.last() != ',' {
            let grown = prev.last().push(s.last());
            assert(!grown.contains(',')) by {
                if grown.contains(',') {
                    let k = choose|k: int| 0 <= k < grown.len() && grown[k] == ',';
                    if k < prev.last().len() {
                        assert(prev.last()[k] == ',');
                        assert(prev[prev.len() - 1] == prev.last());
                    }
                }
            }
        } else {
            assert(!Seq::<char>::empty().contains(','));
        }
        assert forall|i: int| 0 <= i < fields(s).len() implies !(#[trigger] fields(s)[i]).contains(
            ',',
        ) by {
            if i < prev.len() - 1 || (s.last() == ',' && i < prev.len()) {
                assert(fields(s)[i] == prev[i]);
            }
        }
    }
}

/// Trimming the start keeps a part of the text, and leaves it starting with
/// something other than white space.
pub proof fn lemma_trim_start_shape(s: Seq<char>)
    ensures
        exists|k: int| 0 <= k <= s.len() && trim_start(s) == s.subrange(k, s.len() as int),
        trim_start(s).len() > 0 ==> !is_white_space(trim_start(s)[0]),
    decreases s.len(),
{
    if s.len() > 0 && is_white_space(s[0]) {
        lemma_trim_start_shape(s.drop_first());
        let k = choose|k: int|
            0 <= k <= s.drop_first().len() && trim_start(s.drop_first()) == s.drop_first().subrange(
                k,
                s.drop_first().len() as int,
            );
        assert(s.drop_first().subrange(k, s.drop_first().len() as int) =~= s.subrange(
            k + 1,
            s.len() as int,
        ));
    } else {
        assert(s.subrange(0, s.len() as int) =~= s);
    }
}

/// Trimming the end keeps a beginning of the text, and leaves it ending with
/// something other than white space.
pub proof fn lemma_trim_end_shape(s: Seq<char>)
    ensures
        exists|l: int| 0 <= l <= s.len() && trim_end(s) == s.subrange(0, l),
        trim_end(s).len() > 0 ==> !is_white_space(trim_end(s).last()),
    decreases s.len(),
{
    if s.len() > 0 && is_white_space(s.last()) {
        lemma_trim_end_shape(s.drop_last());
        let l = choose|l: int|
            0 <= l <= s.drop_last().len() && trim_end(s.drop_last()) == s.drop_last().subrange(0, l);
        assert(s.drop_last().subrange(0, l) =~= s.subrange(0, l));
    } else {
        assert(s.subrange(0, s.len() as int) =~= s);
    }
}

/// A trimmed text that is not empty is clean, if the text held no comma.
pub proof fn lemma_trim_is_clean(s: Seq<char>)
    requires
        !s.contains(','),
        trim(s).len() > 0,
    ensures
        clean_entry(trim(s)),
{
    lemma_trim_start_shape(s);
    let a = trim_start(s);
    lemma_trim_end_shape(a);
    let k = choose|k: int| 0 <= k <= s.len() && a == s.subrange(k, s.len() as int);
    let l = choose|l: int| 0 <= l <= a.len() && trim_end(a) == a.subrange(0, l);
    let t = trim(s);
    assert(t =~= s.subrange(k, k + l));
    assert(!t.contains(',')) by {
        if t.contains(',') {
            let j = choose|j: int| 0 <= j < t.len() && t[j] == ',';
            assert(s[k + j] == ',');
        }
    }
    assert(t[0] == a[0]);
}

/// Law: the entries read from a comma separated list are clean: not empty,
/// without a comma, and without white space at either end.
pub proof fn lemma_comma_list_is_clean(s: Seq<char>)
    ensures
        clean_entries(comma_list(s)),
{
    lemma_fields_have_no_comma(s);
    lemma_kept_entries_clean(fields(s));
}

/// The entries kept from pieces without commas are clean.
proof fn lemma_kept_entries_clean(parts: Seq<Seq<char>>)
    requires
        forall|i: int| 0 <= i < parts.len() ==> !(#[trigger] parts[i]).contains(','),
    ensures
        clean_entries(kept_entries(parts)),
    decreases parts.len(),
{
    if parts.len() > 0 {
        let init = parts.drop_last();
        assert forall|i: int| 0 <= i < init.len() implies !(#[trigger] init[i]).contains(',') by {
            assert(init[i] == parts[i]);
        }
        lemma_kept_entries_clean(init);
        let t = trim(parts.last());
        if t.len() > 0 {
            assert(!parts[parts.len() - 1].contains(','));
            lemma_trim_is_clean(parts.last());
            let r = kept_entries(init).push(t);
            assert forall|i: int| 0 <= i < r.len() implies clean_entry(#[trigger] r[i]) by {
                if i < r.len() - 1 {
                    assert(r[i] == kept_entries(init)[i]);
                }
            }
        }
    }
}

/// Law: a comma separated list read once, shown again with `", "` between
/// the entries and read again, gives the same entries.
pub proof fn lemma_comma_list_reread(s: Seq<char>)
    ensures
        comma_list(joined(comma_list(s), seq![',', ' '])) == comma_list(s),
{
    lemma_comma_list_is_clean(s);
    lemma_comma_list_of_joined(comma_list(s));
}

// ---------------------------------------------------------------------------
// Executable helpers
// ---------------------------------------------------------------------------

/// Whether `c` is Unicode white space.
pub fn is_white_space_char(c: char) -> (b: bool)
    ensures
        b == is_white_space(c),
{
    let u = c as u32;
    (0x9 <= u && u <= 0xD) || u == 0x20 || u == 0x85 || u == 0xA0 || u == 0x1680 || (0x2000 <= u
        && u <= 0x200A) || u == 0x2028 || u == 0x2029 || u == 0x202F || u == 0x205F || u == 0x3000
}

/// The characters of `s`, in order.
pub fn chars_of(s: &str) -> (out: Vec<char>)
    ensures
        out@ == s@,
{
    let mut out: Vec<char> = Vec::new();
    for c in it: s.chars()
        invariant
            out@ == it.seq().take(it.index() as int),
            it.seq() == s@,
    {
        out.push(c);
    }
    out
}

/// Whether `a` comes strictly before `b` in lexicographic order.
pub fn text_precedes(a: &str, b: &str) -> (r: bool)
    ensures
        r == precedes(a@, b@),
{
    let ac = chars_of(a);
    let bc = chars_of(b);
    let mut i: usize = 0;
    assert(a@.skip(0) =~= a@);
    assert(b@.skip(0) =~= b@);
    while i < ac.len() && i < bc.len()
        invariant
            ac@ == a@,
            bc@ == b@,
            i <= ac.len(),
            i <= bc.len(),
            precedes(a@, b@) == precedes(a@.skip(i as int), b@.skip(i as int)),
        decreases ac.len() - i,
    {
        let x = ac[i];
        let y = bc[i];
        assert(a@.skip(i as int)[0] == x);
        assert(b@.skip(i as int)[0] == y);
        if x != y {
            let r = x < y;
            assert(r == ((x as int) < (y as int)));
            return r;
        }
        assert(a@.skip(i as int).drop_first() =~= a@.skip(i + 1));
        assert(b@.skip(i as int).drop_first() =~= b@.skip(i + 1));
        i = i + 1;
    }
    i < bc.len()
}

/// Bounds `(lo', hi')` such that `cs[lo'..hi']` is `cs[lo..hi]` trimmed.
fn trim_bounds(cs: &Vec<char>, lo: usize, hi: usize) -> (r: (usize, usize))
    requires
        lo <= hi <= cs.len(),
    ensures
        lo <= r.0 <= r.1 <= hi,
        cs@.subrange(r.0 as int, r.1 as int) == trim(cs@.subrange(lo as int, hi as int)),
{
    let mut a = lo;
    while a < hi && is_white_space_char(cs[a])
        invariant
            lo <= a <= hi <= cs.len(),
            trim_start(cs@.subrange(lo as int, hi as int)) == trim_start(
                cs@.subrange(a as int, hi as int),
            ),
        decreases hi - a,
    {
        assert(cs@.subrange(a as int, hi as int).drop_first() =~= cs@.subrange(
            a + 1,
            hi as int,
        ));
        a = a + 1;
    }
    let mut b = hi;
    while b > a && is_white_space_char(cs[b - 1])
        invariant
            lo <= a <= b <= hi <= cs.len(),
            trim_end(cs@.subrange(a as int, hi as int)) == trim_end(
                cs@.subrange(a as int, b as int),
            ),
        decreases b - a,
    {
        assert(cs@.subrange(a as int, b as int).drop_last() =~= cs@.subrange(
            a as int,
            b - 1,
        ));
        b = b - 1;
    }
    assert(trim_start(cs@.subrange(lo as int, hi as int)) == cs@.subrange(a as int, hi as int));
    (a, b)
}

/// The entries of the comma separated list `s`: split on ',', each entry
/// trimmed, the entries that are empty after trimming dropped.
pub fn split_comma_list(s: &str) -> (out: Vec<String>)
    ensures
        texts(out@) == comma_list(s@),
        clean_entries(texts(out@)),
{
    proof {
        lemma_comma_list_is_clean(s@);
    }
    let cs = chars_of(s);
    let n = cs.len();
    let mut out: Vec<String> = Vec::new();
    let mut start: usize = 0;
    let mut i: usize = 0;
    let ghost mut done: Seq<Seq<char>> = Seq::empty();
    assert(cs@.take(0) =~= Seq::<char>::empty());
    assert(cs@.subrange(0, 0) =~= Seq::<char>::empty());
    assert(fields(Seq::<char>::empty()) =~= done + seq![Seq::<char>::empty()]);
    while i < n
        invariant
            n == cs.len(),
            cs@ == s@,
            start <= i <= n,
            fields(cs@.take(i as int)) == done + seq![cs@.subrange(start as int, i as int)],
            texts(out@) == kept_entries(done),
        decreases n - i,
    {
        let c = cs[i];
        let ghost cur = cs@.subrange(start as int, i as int);
        assert(cs@.take(i + 1).drop_last() =~= cs@.take(i as int));
        assert(cs@.take(i + 1).last() == c);
        if c == ',' {
            let (a, b) = trim_bounds(&cs, start, i);
            proof {
                assert(cs@.subrange(i + 1, i + 1) =~= Seq::<char>::empty());
                assert((done + seq![cur]).push(Seq::<char>::empty()) =~= done.push(cur) + seq![
                    cs@.subrange(i + 1, i + 1),
                ]);
                assert(done.push(cur).drop_last() =~= done);
            }
            if a < b {
                let piece = s.substring_char(a, b).to_owned();
                out.push(piece);
                proof {
                    assert(texts(out@) =~= texts(out@.drop_last()).push(piece@));
                }
            }
            proof {
                done = done.push(cur);
            }
            start = i + 1;
        } else {
            proof {
                let prev = done + seq![cur];
                assert(cur.push(c) =~= cs@.subrange(start as int, i + 1));
                assert(prev.update(prev.len() - 1, prev.last().push(c)) =~= done + seq![
                    cs@.subrange(start as int, i + 1),
                ]);
            }
        }
        i = i + 1;
    }
    assert(cs@.take(n as int) =~= cs@);
    let ghost cur = cs@.subrange(start as int, n as int);
    let (a, b) = trim_bounds(&cs, start, n);
    assert((done + seq![cur]).drop_last() =~= done);
    if a < b {
        let piece = s.substring_char(a, b).to_owned();
        out.push(piece);
        assert(texts(out@) =~= texts(out@.drop_last()).push(piece@));
    }
    out
}

/// The strings of `parts` glued together with `sep` between each two.
pub fn join_texts(parts: &Vec<String>, sep: &str) -> (out: String)
    ensures
        out@ == joined(texts(parts@), sep@),
{
    let mut out = String::new();
    let mut i: usize = 0;
    while i < parts.len()
        invariant
            i <= parts.len(),
            out@ == joined(texts(parts@).take(i as int), sep@),
        decreases parts.len() - i,
    {
        let ghost before = texts(parts@).take(i as int);
        assert(texts(parts@).take(i + 1).drop_last() =~= before);
        if i > 0 {
            out.append(sep);
        }
        out.append(parts[i].as_str());
        proof {
            if i == 0 {
                assert(out@ =~= parts@[0]@);
            } else {
                assert(out@ =~= joined(before, sep@) + sep@ + parts@[i as int]@);
            }
        }
        i = i + 1;
    }
    assert(texts(parts@).take(parts.len() as int) =~= texts(parts@));
    out
}

} // verus!
