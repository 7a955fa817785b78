//! Shared string primitives: equality, prefix and suffix tests, substring
//! search, joining and replacement, each specified over `Seq<char>` views.

use vstd::prelude::*;

verus! {

/// True when `s` begins with `pre`.
pub open spec fn spec_starts_with(s: Seq<char>, pre: Seq<char>) -> bool {
    pre.len() <= s.len() && s.take(pre.len() as int) == pre
}

/// True when `s` ends with `suf`.
pub open spec fn spec_ends_with(s: Seq<char>, suf: Seq<char>) -> bool {
    suf.len() <= s.len() && s.skip(s.len() - suf.len()) == suf
}

/// True when `pat` occurs in `s` at position `i`.
pub open spec fn matches_at(s: Seq<char>, pat: Seq<char>, i: int) -> bool {
    0 <= i && i + pat.len() <= s.len() && s.subrange(i, i + pat.len()) == pat
}

/// True when `pat` occurs somewhere in `s` at or after position `from`.
pub open spec fn has_match_from(s: Seq<char>, pat: Seq<char>, from: int) -> bool {
    exists|i: int| from <= i && matches_at(s, pat, i)
}

/// Compare two string slices character by character.
pub fn str_eq(a: &str, b: &str) -> (r: bool)
    ensures
        r == (a@ == b@),
{
    let alen = a.unicode_len();
    let blen = b.unicode_len();
    if alen != blen {
        assert(a@ != b@) by {
            assert(a@.len() != b@.len());
        }
        return false;
    }
    let mut i: usize = 0;
    while i < alen
        invariant
            i <= alen,
            alen == a@.len(),
            alen == b@.len(),
            forall|j: int| 0 <= j < i ==> a@[j] == b@[j],
        decreases alen - i,
    {
        if a.get_char(i) != b.get_char(i) {
            assert(a@ != b@);
            return false;
        }
        i = i + 1;
    }
    assert(a@ =~= b@);
    true
}

/// True when `s` begins with `pre`, compared character by character.
pub fn str_starts_with(s: &str, pre: &str) -> (r: bool)
    ensures
        r == spec_starts_with(s@, pre@),
{
    let slen = s.unicode_len();
    let plen = pre.unicode_len();
    if plen > slen {
        return false;
    }
    let mut i: usize = 0;
    while i < plen
        invariant
            i <= plen,
            plen <= slen,
            slen == s@.len(),
            plen == pre@.len(),
            forall|j: int| 0 <= j < i ==> s@[j] == pre@[j],
        decreases plen - i,
    {
        if s.get_char(i) != pre.get_char(i) {
            assert(s@.take(plen as int)[i as int] != pre@[i as int]);
            return false;
        }
        i = i + 1;
    }
    assert(s@.take(plen as int) =~= pre@);
    true
}

/// True when `s` ends with `suf`, compared character by character.
pub fn str_ends_with(s: &str, suf: &str) -> (r: bool)
    ensures
        r == spec_ends_with(s@, suf@),
{
    let slen = s.unicode_len();
    let flen = suf.unicode_len();
    if flen > slen {
        return false;
    }
    let off: usize = slen - flen;
    let mut i: usize = 0;
    while i < flen
        invariant
            i <= flen,
            flen <= slen,
            off == slen - flen,
            slen == s@.len(),
            flen == suf@.len(),
            forall|j: int| 0 <= j < i ==> s@[off + j] == suf@[j],
        decreases flen - i,
    {
        if s.get_char(off + i) != suf.get_char(i) {
            assert(s@.skip(off as int)[i as int] != suf@[i as int]);
            return false;
        }
        i = i + 1;
    }
    assert(s@.skip(off as int) =~= suf@);
    true
}

/// Whether `pat` occurs in `s` at position `at` (both taken as exec values).
pub fn str_matches_at(s: &str, pat: &str, at: usize) -> (r: bool)
    requires
        at + pat@.len() <= s@.len(),
    ensures
        r == matches_at(s@, pat@, at as int),
{
    let slen = s.unicode_len();
    let plen = pat.unicode_len();
    let mut i: usize = 0;
    while i < plen
        invariant
            i <= plen,
            plen == pat@.len(),
            slen == s@.len(),
            at + plen <= slen,
            forall|j: int| 0 <= j < i ==> s@[at + j] == pat@[j],
        decreases plen - i,
    {
        if s.get_char(at + i) != pat.get_char(i) {
            assert(s@.subrange(at as int, at + plen)[i as int] != pat@[i as int]);
            return false;
        }
        i = i + 1;
    }
    assert(s@.subrange(at as int, at + plen) =~= pat@);
    true
}

/// Position of the first occurrence of `pat` in `s` at or after `from`,
/// or `None` when there is none.
pub fn find_sub_from(s: &str, pat: &str, from: usize) -> (r: Option<usize>)
    requires
        pat@.len() >= 1,
    ensures
        match r {
            Some(i) => from <= i && matches_at(s@, pat@, i as int) && forall|j: int|
                from <= j < i ==> !matches_at(s@, pat@, j),
            None => !has_match_from(s@, pat@, from as int),
        },
{
    let slen = s.unicode_len();
    let plen = pat.unicode_len();
    if from > slen || plen > slen - from {
        assert(forall|i: int| from <= i ==> !matches_at(s@, pat@, i));
        return None;
    }
    let last: usize = slen - plen;
    let mut i: usize = from;
    while i <= last
        invariant
            from <= i,
            i <= last + 1,
            last == s@.len() - pat@.len(),
            slen == s@.len(),
            plen == pat@.len(),
            plen >= 1,
            forall|j: int| from <= j < i ==> !matches_at(s@, pat@, j),
        decreases last + 1 - i,
    {
        if str_matches_at(s, pat, i) {
            return Some(i);
        }
        i = i + 1;
    }
    assert(forall|j: int| from <= j ==> !matches_at(s@, pat@, j)) by {
        assert(forall|j: int| j > last ==> !matches_at(s@, pat@, j));
    }
    None
}

/// Position of the first occurrence of character `c` in `s` at or after
/// `from`, or `None` when there is none.
pub fn find_char_from(s: &str, c: char, from: usize) -> (r: Option<usize>)
    ensures
        match r {
            Some(i) => from <= i < s@.len() && s@[i as int] == c && forall|j: int|
                from <= j < i ==> s@[j] != c,
            None => forall|j: int| from <= j < s@.len() ==> s@[j] != c,
        },
{
    let slen = s.unicode_len();
    let mut i: usize = from;
    while i < slen
        invariant
            from <= i,
            slen == s@.len(),
            forall|j: int| from <= j < i && j < s@.len() ==> s@[j] != c,
        decreases slen - i,
    {
        if s.get_char(i) == c {
            return Some(i);
        }
        i = i + 1;
    }
    None
}

/// View of the option list rendered as a command suffix: one leading
/// space before every element, nothing for an empty list.
pub open spec fn spec_opts_suffix(opts: Seq<Seq<char>>) -> Seq<char>
    decreases opts.len(),
{
    if opts.len() == 0 {
        Seq::empty()
    } else {
        spec_opts_suffix(opts.drop_last()) + seq![' '] + opts.last()
    }
}

/// Render extra command options: `[]` yields `""`, `[a, b]` yields `" a b"`.
pub fn opts_suffix(options: &Vec<String>) -> (r: String)
    ensures
        r@ == spec_opts_suffix(options.deep_view()),
{
    let mut out = String::new();
    let mut i: usize = 0;
    proof {
        assert(options.deep_view().take(0) =~= Seq::<Seq<char>>::empty());
        assert(out@ =~= spec_opts_suffix(options.deep_view().take(0)));
    }
    while i < options.len()
        invariant
            i <= options.len(),
            options.deep_view().len() == options.len(),
            out@ == spec_opts_suffix(options.deep_view().take(i as int)),
        decreases options.len() - i,
    {
        let ghost prev = out@;
        out.append(" ");
        out.append(options[i].as_str());
        proof {
            let dv = options.deep_view();
            reveal_strlit(" ");
            assert(" "@ =~= seq![' ']);
            assert(dv.take(i + 1).drop_last() =~= dv.take(i as int));
            assert(dv.take(i + 1).last() == dv[i as int]);
            assert(dv[i as int] == options[i as int]@);
            assert(out@ =~= spec_opts_suffix(dv.take(i as int)) + seq![' '] + dv[i as int]);
        }
        i = i + 1;
    }
    proof {
        assert(options.deep_view().take(options.len() as int) =~= options.deep_view());
    }
    out
}

/// View of `s` with every non-overlapping occurrence of `pat`, scanned
/// left to right, replaced by `to`.  A pattern longer than the rest of
/// the text, or an empty pattern, leaves the text unchanged.
pub open spec fn spec_replace(s: Seq<char>, pat: Seq<char>, to: Seq<char>) -> Seq<char>
    decreases s.len(),
{
    if pat.len() == 0 || s.len() < pat.len() {
        s
    } else if s.take(pat.len() as int) == pat {
        to + spec_replace(s.skip(pat.len() as int), pat, to)
    } else {
        seq![s[0]] + spec_replace(s.skip(1), pat, to)
    }
}

/// Replace every non-overlapping occurrence of `pat` in `s` by `to`,
/// scanning left to right, as `str::replace` does.
pub fn replace_all(s: &str, pat: &str, to: &str) -> (r: String)
    requires
        pat@.len() >= 1,
    ensures
        r@ == spec_replace(s@, pat@, to@),
{
    let slen = s.unicode_len();
    let plen = pat.unicode_len();
    let mut out = String::new();
    let mut pos: usize = 0;
    proof {
        assert(s@.skip(0) =~= s@);
        assert(out@ + spec_replace(s@, pat@, to@) =~= spec_replace(s@, pat@, to@));
    }
    while pos < slen
        invariant
            pos <= slen,
            slen == s@.len(),
            plen == pat@.len(),
            plen >= 1,
            out@ + spec_replace(s@.skip(pos as int), pat@, to@) == spec_replace(s@, pat@, to@),
        decreases slen - pos,
    {
        let ghost rest = s@.skip(pos as int);
        let ghost prev = out@;
        if plen <= slen - pos && str_matches_at(s, pat, pos) {
            out.append(to);
            proof {
                assert(rest.take(plen as int) =~= s@.subrange(pos as int, pos + plen));
                assert(rest.skip(plen as int) =~= s@.skip(pos + plen));
                assert(spec_replace(rest, pat@, to@) == to@ + spec_replace(
                    s@.skip(pos + plen),
                    pat@,
                    to@,
                ));
                assert(out@ + spec_replace(s@.skip(pos + plen), pat@, to@) =~= prev + spec_replace(
                    rest,
                    pat@,
                    to@,
                ));
            }
            pos = pos + plen;
        } else {
            let piece = s.substring_char(pos, pos + 1);
            out.append(piece);
            proof {
                if plen <= slen - pos {
                    assert(rest.take(plen as int) =~= s@.subrange(pos as int, pos + plen));
                }
                assert(piece@ =~= seq![rest[0]]);
                assert(rest.skip(1) =~= s@.skip(pos + 1));
                assert(spec_replace(rest, pat@, to@) == seq![rest[0]] + spec_replace(
                    s@.skip(pos + 1),
                    pat@,
                    to@,
                ));
                assert(out@ + spec_replace(s@.skip(pos + 1), pat@, to@) =~= prev + spec_replace(
                    rest,
                    pat@,
                    to@,
                ));
            }
            pos = pos + 1;
        }
    }
    proof {
        assert(s@.skip(slen as int) =~= Seq::<char>::empty());
    }
    out
}

/// The pieces of `s` between occurrences of `sep`, in order, defined
/// character by character: a separator closes the current piece.
pub open spec fn spec_split_on(s: Seq<char>, sep: char) -> Seq<Seq<char>>
    decreases s.len(),
{
    if s.len() == 0 {
        seq![Seq::empty()]
    } else if s[0] == sep {
        seq![Seq::<char>::empty()] + spec_split_on(s.skip(1), sep)
    } else {
        let rest = spec_split_on(s.skip(1), sep);
        seq![seq![s[0]] + rest[0]] + rest.skip(1)
    }
}

pub proof fn lemma_split_on_len(s: Seq<char>, sep: char)
    ensures
        spec_split_on(s, sep).len() >= 1,
    decreases s.len(),
{
    if s.len() != 0 {
        lemma_split_on_len(s.skip(1), sep);
    }
}

/// Splitting a separator-free text yields that text as the one piece.
pub proof fn lemma_split_on_nosep(s: Seq<char>, sep: char)
    requires
        forall|i: int| 0 <= i < s.len() ==> s[i] != sep,
    ensures
        spec_split_on(s, sep) == seq![s],
    decreases s.len(),
{
    if s.len() == 0 {
        assert(s =~= Seq::<char>::empty());
        assert(spec_split_on(s, sep) =~= seq![s]);
    } else {
        assert(forall|i: int| 0 <= i < s.skip(1).len() ==> s.skip(1)[i] != sep);
        lemma_split_on_nosep(s.skip(1), sep);
        let rest = spec_split_on(s.skip(1), sep);
        assert(rest[0] == s.skip(1));
        assert(seq![s[0]] + rest[0] =~= s);
        assert(rest.skip(1) =~= Seq::<Seq<char>>::empty());
        assert(spec_split_on(s, sep) =~= seq![s]);
    }
}

/// Splitting at the first separator: the part before it becomes the
/// first piece, and the rest splits on its own.
pub proof fn lemma_split_on_firstsep(s: Seq<char>, sep: char, i: int)
    requires
        0 <= i < s.len(),
        s[i] == sep,
        forall|j: int| 0 <= j < i ==> s[j] != sep,
    ensures
        spec_split_on(s, sep) == seq![s.take(i)] + spec_split_on(s.skip(i + 1), sep),
    decreases i,
{
    if i == 0 {
        assert(s.take(0) =~= Seq::<char>::empty());
        assert(spec_split_on(s, sep) =~= seq![s.take(0)] + spec_split_on(s.skip(1), sep));
    } else {
        assert(s.skip(1)[i - 1] == sep);
        assert(forall|j: int| 0 <= j < i - 1 ==> s.skip(1)[j] != sep);
        lemma_split_on_firstsep(s.skip(1), sep, i - 1);
        let rest = spec_split_on(s.skip(1), sep);
        assert(rest == seq![s.skip(1).take(i - 1)] + spec_split_on(s.skip(1).skip(i - 1 + 1), sep));
        assert(rest[0] == s.skip(1).take(i - 1));
        assert(seq![s[0]] + rest[0] =~= s.take(i));
        assert(rest.skip(1) =~= spec_split_on(s.skip(1).skip(i), sep));
        assert(s.skip(1).skip(i) =~= s.skip(i + 1));
        assert(spec_split_on(s, sep) =~= seq![s.take(i)] + spec_split_on(s.skip(i + 1), sep));
    }
}

/// Split `s` at every occurrence of `sep`.
pub fn split_on(s: &str, sep: char) -> (r: Vec<String>)
    ensures
        r.deep_view() == spec_split_on(s@, sep),
{
    let slen = s.unicode_len();
    let mut parts: Vec<String> = Vec::new();
    let mut pos: usize = 0;
    proof {
        assert(s@.skip(0) =~= s@);
        assert(parts.deep_view() + spec_split_on(s@, sep) =~= spec_split_on(s@, sep));
    }
    loop
        invariant
            pos <= slen,
            slen == s@.len(),
            spec_split_on(s@, sep) == parts.deep_view() + spec_split_on(s@.skip(pos as int), sep),
            pos != 0 ==> pos >= 1 && s@[pos as int - 1] == sep,
            pos == 0 ==> parts.len() == 0,
        decreases slen - pos,
    {
        let ghost rest = s@.skip(pos as int);
        match find_char_from(s, sep, pos) {
            Some(i) => {
                let piece = s.substring_char(pos, i).to_owned();
                parts.push(piece);
                proof {
                    assert(rest[i - pos] == sep);
                    assert(forall|j: int| 0 <= j < i - pos ==> rest[j] != sep);
                    lemma_split_on_firstsep(rest, sep, i - pos);
                    assert(rest.take(i - pos) =~= s@.subrange(pos as int, i as int));
                    assert(rest.skip(i - pos + 1) =~= s@.skip(i + 1));
                    assert(parts.deep_view() =~= parts.deep_view().drop_last().push(
                        s@.subrange(pos as int, i as int),
                    ));
                    assert(parts.deep_view().drop_last() + (seq![
                        s@.subrange(pos as int, i as int),
                    ] + spec_split_on(s@.skip(i + 1), sep)) =~= parts.deep_view() + spec_split_on(
                        s@.skip(i + 1),
                        sep,
                    ));
                }
                pos = i + 1;
            },
            None => {
                let piece = s.substring_char(pos, slen).to_owned();
                parts.push(piece);
                proof {
                    assert(forall|j: int| 0 <= j < rest.len() ==> rest[j] != sep);
                    lemma_split_on_nosep(rest, sep);
                    assert(rest =~= s@.subrange(pos as int, slen as int));
                    assert(parts.deep_view() =~= parts.deep_view().drop_last().push(rest));
                    assert(parts.deep_view().drop_last() + seq![rest] =~= parts.deep_view());
                }
                return parts;
            },
        }
    }
}

/// Position of the first occurrence of `c` in `s` at or after `from`.
pub open spec fn spec_find_char(s: Seq<char>, c: char, from: int) -> Option<int>
    decreases s.len() - from,
{
    if from < 0 || from >= s.len() {
        None
    } else if s[from] == c {
        Some(from)
    } else {
        spec_find_char(s, c, from + 1)
    }
}

proof fn lemma_find_char_some(s: Seq<char>, c: char, from: int, i: int)
    requires
        0 <= from <= i < s.len(),
        s[i] == c,
        forall|j: int| from <= j < i ==> s[j] != c,
    ensures
        spec_find_char(s, c, from) == Some(i),
    decreases i - from,
{
    if from < i {
        lemma_find_char_some(s, c, from + 1, i);
    }
}

proof fn lemma_find_char_none(s: Seq<char>, c: char, from: int)
    requires
        from >= 0,
        forall|j: int| from <= j < s.len() ==> s[j] != c,
    ensures
        spec_find_char(s, c, from) is None,
    decreases s.len() - from,
{
    if from < s.len() {
        lemma_find_char_none(s, c, from + 1);
    }
}

/// As `find_char_from`, with the result tied to `spec_find_char`.
pub fn find_char_at(s: &str, c: char, from: usize) -> (r: Option<usize>)
    ensures
        match r {
            Some(i) => spec_find_char(s@, c, from as int) == Some(i as int) && from <= i
                < s@.len(),
            None => spec_find_char(s@, c, from as int) is None,
        },
{
    let r = find_char_from(s, c, from);
    proof {
        match r {
            Some(i) => lemma_find_char_some(s@, c, from as int, i as int),
            None => lemma_find_char_none(s@, c, from as int),
        }
    }
    r
}

/// Position of the first occurrence of `pat` in `s` at or after `from`.
pub open spec fn spec_find_sub(s: Seq<char>, pat: Seq<char>, from: int) -> Option<int>
    decreases s.len() - from,
{
    if from < 0 || from >= s.len() || from + pat.len() > s.len() {
        None
    } else if matches_at(s, pat, from) {
        Some(from)
    } else {
        spec_find_sub(s, pat, from + 1)
    }
}

proof fn lemma_find_sub_some(s: Seq<char>, pat: Seq<char>, from: int, i: int)
    requires
        0 <= from <= i,
        pat.len() >= 1,
        matches_at(s, pat, i),
        forall|j: int| from <= j < i ==> !matches_at(s, pat, j),
    ensures
        spec_find_sub(s, pat, from) == Some(i),
    decreases i - from,
{
    if from < i {
        lemma_find_sub_some(s, pat, from + 1, i);
    }
}

proof fn lemma_find_sub_none(s: Seq<char>, pat: Seq<char>, from: int)
    requires
        from >= 0,
        !has_match_from(s, pat, from),
    ensures
        spec_find_sub(s, pat, from) is None,
    decreases s.len() - from,
{
    if from < s.len() && from + pat.len() <= s.len() {
        assert(!matches_at(s, pat, from));
        assert(forall|i: int| from + 1 <= i ==> !matches_at(s, pat, i));
        lemma_find_sub_none(s, pat, from + 1);
    }
}

/// As `find_sub_from`, with the result tied to `spec_find_sub`.
pub fn find_sub_at(s: &str, pat: &str, from: usize) -> (r: Option<usize>)
    requires
        pat@.len() >= 1,
    ensures
        match r {
            Some(i) => spec_find_sub(s@, pat@, from as int) == Some(i as int) && from <= i && i
                + pat@.len() <= s@.len(),
            None => spec_find_sub(s@, pat@, from as int) is None,
        },
{
    let r = find_sub_from(s, pat, from);
    proof {
        match r {
            Some(i) => lemma_find_sub_some(s@, pat@, from as int, i as int),
            None => lemma_find_sub_none(s@, pat@, from as int),
        }
    }
    r
}

/// The concatenation of two string slices.
pub fn concat2(a: &str, b: &str) -> (r: String)
    ensures
        r@ == a@ + b@,
{
    let mut out = a.to_owned();
    out.append(b);
    out
}

/// The concatenation of three string slices.
pub fn concat3(a: &str, b: &str, c: &str) -> (r: String)
    ensures
        r@ == a@ + b@ + c@,
{
    let mut out = a.to_owned();
    out.append(b);
    out.append(c);
    out
}

} // verus!
