use vstd::prelude::*;

verus! {

/// True when `needle` occurs in `hay` starting at position `i`.
pub open spec fn is_substring_at(hay: Seq<char>, needle: Seq<char>, i: int) -> bool {
    &&& 0 <= i
    &&& i + needle.len() <= hay.len()
    &&& hay.subrange(i, i + needle.len() as int) == needle
}

/// True when `needle` occurs somewhere in `hay`.
pub open spec fn contains_seq(hay: Seq<char>, needle: Seq<char>) -> bool {
    exists|i: int| is_substring_at(hay, needle, i)
}

/// Substring search: returns whether `needle` occurs anywhere in `hay`.
pub fn contains_str(hay: &str, needle: &str) -> (r: bool)
    ensures
        r == contains_seq(hay@, needle@),
{
    let hlen = hay.unicode_len();
    let nlen = needle.unicode_len();
    if nlen == 0 {
        assert(hay@.subrange(0, 0) =~= needle@);
        assert(is_substring_at(hay@, needle@, 0));
        return true;
    }
    if nlen > hlen {
        assert(forall|i: int| !is_substring_at(hay@, needle@, i));
        return false;
    }
    let mut i: usize = 0;
    while i <= hlen - nlen
        invariant
            hlen == hay@.len(),
            nlen == needle@.len(),
            1 <= nlen <= hlen,
            0 <= i <= hlen - nlen + 1,
            forall|j: int| 0 <= j < i ==> !is_substring_at(hay@, needle@, j),
        decreases hlen - i,
    {
        let mut k: usize = 0;
        let mut matched = true;
        while k < nlen
            invariant
                hlen == hay@.len(),
                nlen == needle@.len(),
                i + nlen <= hlen,
                0 <= k <= nlen,
                matched ==> forall|m: int| 0 <= m < k ==> hay@[i + m] == needle@[m],
                !matched ==> !is_substring_at(hay@, needle@, i as int),
            decreases nlen - k,
        {
            if hay.get_char(i + k) != needle.get_char(k) {
                proof {
                    if is_substring_at(hay@, needle@, i as int) {
                        assert(hay@.subrange(i as int, i + needle@.len() as int)[k as int]
                            == needle@[k as int]);
                    }
                }
                matched = false;
                k = nlen;
            } else {
                k = k + 1;
            }
        }
        if matched {
            assert(hay@.subrange(i as int, i + needle@.len() as int) =~= needle@);
            assert(is_substring_at(hay@, needle@, i as int));
            return true;
        }
        i = i + 1;
    }
    assert forall|j: int| !is_substring_at(hay@, needle@, j) by {
        if 0 <= j && j + needle@.len() <= hay@.len() {
            assert(j < i);
        }
    }
    false
}

/// Character-wise string equality.
pub fn eq_str(a: &str, b: &str) -> (r: bool)
    ensures
        r == (a@ == b@),
{
    let alen = a.unicode_len();
    let blen = b.unicode_len();
    if alen != blen {
        return false;
    }
    let mut i: usize = 0;
    while i < alen
        invariant
            alen == a@.len(),
            alen == b@.len(),
            0 <= i <= alen,
            forall|j: int| 0 <= j < i ==> a@[j] == b@[j],
        decreases alen - i,
    {
        if a.get_char(i) != b.get_char(i) {
            return false;
        }
        i = i + 1;
    }
    proof {
        assert(a@ =~= b@);
    }
    true
}

/// True when `p` is a prefix of `s`.
pub open spec fn starts_with_seq(s: Seq<char>, p: Seq<char>) -> bool {
    p.len() <= s.len() && s.subrange(0, p.len() as int) == p
}

pub fn starts_with_str(s: &str, p: &str) -> (r: bool)
    ensures
        r == starts_with_seq(s@, p@),
{
    let slen = s.unicode_len();
    let plen = p.unicode_len();
    if plen > slen {
        return false;
    }
    let mut i: usize = 0;
    while i < plen
        invariant
            slen == s@.len(),
            plen == p@.len(),
            plen <= slen,
            0 <= i <= plen,
            forall|j: int| 0 <= j < i ==> s@[j] == p@[j],
        decreases plen - i,
    {
        if s.get_char(i) != p.get_char(i) {
            proof {
                if starts_with_seq(s@, p@) {
                    assert(s@.subrange(0, p@.len() as int)[i as int] == p@[i as int]);
                }
            }
            return false;
        }
        i = i + 1;
    }
    proof {
        assert(s@.subrange(0, p@.len() as int) =~= p@);
    }
    true
}

/// True when `p` is a suffix of `s`.
pub open spec fn ends_with_seq(s: Seq<char>, p: Seq<char>) -> bool {
    p.len() <= s.len() && s.subrange(s.len() - p.len(), s.len() as int) == p
}

pub fn ends_with_str(s: &str, p: &str) -> (r: bool)
    ensures
        r == ends_with_seq(s@, p@),
{
    let slen = s.unicode_len();
    let plen = p.unicode_len();
    if plen > slen {
        return false;
    }
    let off = slen - plen;
    let mut i: usize = 0;
    while i < plen
        invariant
            slen == s@.len(),
            plen == p@.len(),
            plen <= slen,
            off == slen - plen,
            0 <= i <= plen,
            forall|j: int| 0 <= j < i ==> s@[off + j] == p@[j],
        decreases plen - i,
    {
        if s.get_char(off + i) != p.get_char(i) {
            proof {
                if ends_with_seq(s@, p@) {
                    assert(s@.subrange(s@.len() - p@.len(), s@.len() as int)[i as int]
                        == p@[i as int]);
                }
            }
            return false;
        }
        i = i + 1;
    }
    proof {
        assert(s@.subrange(s@.len() - p@.len(), s@.len() as int) =~= p@);
    }
    true
}

/// Index of the first occurrence of `c` in `s`, if any.
pub open spec fn spec_find_char(s: Seq<char>, c: char) -> Option<int>
    decreases s.len(),
{
    if s.len() == 0 {
        None
    } else if s[0] == c {
        Some(0)
    } else {
        match spec_find_char(s.skip(1), c) {
            Some(i) => Some(i + 1),
            None => None,
        }
    }
}

/// The result of `spec_find_char` is the least index holding `c`.
pub proof fn lemma_find_char(s: Seq<char>, c: char)
    ensures
        match spec_find_char(s, c) {
            Some(i) => 0 <= i < s.len() && s[i] == c && forall|j: int| 0 <= j < i ==> s[j] != c,
            None => forall|j: int| 0 <= j < s.len() ==> s[j] != c,
        },
    decreases s.len(),
{
    if s.len() > 0 && s[0] != c {
        lemma_find_char(s.skip(1), c);
        assert forall|j: int| 0 <= j < s.len() implies #[trigger] s[j] == s[j] && (
        match spec_find_char(s, c) {
            Some(i) => j < i ==> s[j] != c,
            None => s[j] != c,
        }) by {
            if j > 0 {
                assert(s.skip(1)[j - 1] == s[j]);
            }
        }
    }
}

pub fn find_char(s: &str, c: char) -> (r: Option<usize>)
    ensures
        match r {
            Some(i) => spec_find_char(s@, c) == Some(i as int),
            None => spec_find_char(s@, c) is None,
        },
{
    proof {
        lemma_find_char(s@, c);
    }
    let len = s.unicode_len();
    let mut i: usize = 0;
    while i < len
        invariant
            len == s@.len(),
            0 <= i <= len,
            forall|j: int| 0 <= j < i ==> s@[j] != c,
        decreases len - i,
    {
        if s.get_char(i) == c {
            proof {
                lemma_find_char(s@, c);
                match spec_find_char(s@, c) {
                    Some(k) => {
                        assert(!(k < i));
                        assert(!(k > i)) by {
                            if k > i {
                                assert(s@[i as int] != c);
                            }
                        }
                    },
                    None => {
                        assert(s@[i as int] != c);
                    },
                }
            }
            return Some(i);
        }
        i = i + 1;
    }
    proof {
        lemma_find_char(s@, c);
        if spec_find_char(s@, c) is Some {
            let k = spec_find_char(s@, c)->Some_0;
            assert(s@[k] == c);
        }
    }
    None
}

/// Index of the last occurrence of `c` in `s`, if any.
pub open spec fn spec_rfind_char(s: Seq<char>, c: char) -> Option<int>
    decreases s.len(),
{
    if s.len() == 0 {
        None
    } else if s[s.len() - 1] == c {
        Some(s.len() - 1)
    } else {
        spec_rfind_char(s.take(s.len() - 1), c)
    }
}

/// The result of `spec_rfind_char` is the greatest index holding `c`.
pub proof fn lemma_rfind_char(s: Seq<char>, c: char)
    ensures
        match spec_rfind_char(s, c) {
            Some(i) => 0 <= i < s.len() && s[i] == c && forall|j: int| i < j < s.len() ==> s[j] != c,
            None => forall|j: int| 0 <= j < s.len() ==> s[j] != c,
        },
    decreases s.len(),
{
    if s.len() > 0 && s[s.len() - 1] != c {
        lemma_rfind_char(s.take(s.len() - 1), c);
        assert forall|j: int| 0 <= j < s.len() - 1 implies s.take(s.len() - 1)[j] == s[j] by {}
    }
}

pub fn rfind_char(s: &str, c: char) -> (r: Option<usize>)
    ensures
        match r {
            Some(i) => spec_rfind_char(s@, c) == Some(i as int),
            None => spec_rfind_char(s@, c) is None,
        },
{
    proof {
        lemma_rfind_char(s@, c);
    }
    let len = s.unicode_len();
    let mut i: usize = len;
    while i > 0
        invariant
            len == s@.len(),
            0 <= i <= len,
            forall|j: int| i <= j < len ==> s@[j] != c,
        decreases i,
    {
        i = i - 1;
        if s.get_char(i) == c {
            proof {
                lemma_rfind_char(s@, c);
                match spec_rfind_char(s@, c) {
                    Some(k) => {
                        assert(!(k > i));
                        assert(!(k < i)) by {
                            if k < i {
                                assert(s@[i as int] != c);
                            }
                        }
                    },
                    None => {
                        assert(s@[i as int] != c);
                    },
                }
            }
            return Some(i);
        }
    }
    proof {
        lemma_rfind_char(s@, c);
        if spec_rfind_char(s@, c) is Some {
            let k = spec_rfind_char(s@, c)->Some_0;
            assert(s@[k] == c);
        }
    }
    None
}

/// ASCII lowercase of one character; anything outside `A`..`Z` is unchanged.
pub open spec fn lower_char(c: char) -> char {
    match c {
        'A' => 'a',
        'B' => 'b',
        'C' => 'c',
        'D' => 'd',
        'E' => 'e',
        'F' => 'f',
        'G' => 'g',
        'H' => 'h',
        'I' => 'i',
        'J' => 'j',
        'K' => 'k',
        'L' => 'l',
        'M' => 'm',
        'N' => 'n',
        'O' => 'o',
        'P' => 'p',
        'Q' => 'q',
        'R' => 'r',
        'S' => 's',
        'T' => 't',
        'U' => 'u',
        'V' => 'v',
        'W' => 'w',
        'X' => 'x',
        'Y' => 'y',
        'Z' => 'z',
        _ => c,
    }
}

/// ASCII lowercase of a character sequence.
pub open spec fn lower_seq(s: Seq<char>) -> Seq<char> {
    s.map_values(|c: char| lower_char(c))
}

fn lower_char_exec(c: char) -> (r: char)
    ensures
        r == lower_char(c),
{
    match c {
        'A' => 'a',
        'B' => 'b',
        'C' => 'c',
        'D' => 'd',
        'E' => 'e',
        'F' => 'f',
        'G' => 'g',
        'H' => 'h',
        'I' => 'i',
        'J' => 'j',
        'K' => 'k',
        'L' => 'l',
        'M' => 'm',
        'N' => 'n',
        'O' => 'o',
        'P' => 'p',
        'Q' => 'q',
        'R' => 'r',
        'S' => 's',
        'T' => 't',
        'U' => 'u',
        'V' => 'v',
        'W' => 'w',
        'X' => 'x',
        'Y' => 'y',
        'Z' => 'z',
        _ => c,
    }
}

/// Build a `String` out of a sequence of characters held in a `Vec`.
pub fn string_from_chars(cs: &Vec<char>) -> (r: String)
    ensures
        r@ == cs@,
{
    let mut out = String::new();
    let mut i: usize = 0;
    while i < cs.len()
        invariant
            0 <= i <= cs.len(),
            out@ == cs@.subrange(0, i as int),
        decreases cs.len() - i,
    {
        out = push_char(out, cs[i]);
        proof {
            assert(out@ =~= cs@.subrange(0, i + 1));
        }
        i = i + 1;
    }
    proof {
        assert(out@ =~= cs@);
    }
    out
}

/// Relies on `String`'s `push`: appends exactly one character.
#[verifier::external_body]
fn push_char(s: String, c: char) -> (r: String)
    ensures
        r@ == s@.push(c),
{
    let mut s = s;
    s.push(c);
    s
}

/// ASCII-lowercases a string; characters outside `A`..`Z` are unchanged.
pub fn to_lowercase_ascii(s: &str) -> (r: String)
    ensures
        r@ == lower_seq(s@),
{
    let len = s.unicode_len();
    let mut cs: Vec<char> = Vec::new();
    let mut i: usize = 0;
    while i < len
        invariant
            len == s@.len(),
            0 <= i <= len,
            cs@ == lower_seq(s@).subrange(0, i as int),
        decreases len - i,
    {
        cs.push(lower_char_exec(s.get_char(i)));
        proof {
            assert(cs@ =~= lower_seq(s@).subrange(0, i + 1));
        }
        i = i + 1;
    }
    proof {
        assert(cs@ =~= lower_seq(s@));
    }
    string_from_chars(&cs)
}

/// Substring as an owned `String`.
pub fn substring(s: &str, from: usize, to: usize) -> (r: String)
    requires
        from <= to <= s@.len(),
    ensures
        r@ == s@.subrange(from as int, to as int),
{
    let sub = s.substring_char(from, to);
    sub.to_owned()
}

/// If `spec_find_char(s, c)` yields an index, it is the least index holding `c`;
/// conversely a least such index is what it yields.
pub proof fn lemma_find_char_unique(s: Seq<char>, c: char, i: int)
    requires
        0 <= i < s.len(),
        s[i] == c,
        forall|j: int| 0 <= j < i ==> s[j] != c,
    ensures
        spec_find_char(s, c) == Some(i),
{
    lemma_find_char(s, c);
    match spec_find_char(s, c) {
        Some(k) => {
            if k < i {
                assert(s[k] != c);
            }
            if k > i {
                assert(s[i] != c);
            }
        },
        None => {
            assert(s[i] != c);
        },
    }
}

/// The pieces of `s` between occurrences of the separator `c`, in order.
/// A string without the separator yields one piece; `n` separators yield
/// `n + 1` pieces, some possibly empty.
pub open spec fn split_seq(s: Seq<char>, c: char) -> Seq<Seq<char>>
    decreases s.len(),
    via split_seq_dec
{
    match spec_find_char(s, c) {
        Some(i) => seq![s.take(i)] + split_seq(s.skip(i + 1), c),
        None => seq![s],
    }
}

#[via_fn]
proof fn split_seq_dec(s: Seq<char>, c: char) {
    lemma_find_char(s, c);
}

/// Splitting yields at least one piece, and no piece holds the separator.
pub proof fn lemma_split_seq_parts(s: Seq<char>, c: char)
    ensures
        split_seq(s, c).len() >= 1,
        forall|k: int| 0 <= k < split_seq(s, c).len() ==> !split_seq(s, c)[k].contains(c),
    decreases s.len(),
{
    lemma_find_char(s, c);
    match spec_find_char(s, c) {
        Some(i) => {
            lemma_split_seq_parts(s.skip(i + 1), c);
            let parts = split_seq(s, c);
            let rest = split_seq(s.skip(i + 1), c);
            assert forall|k: int| 0 <= k < parts.len() implies !(#[trigger] parts[k]).contains(c) by {
                if k == 0 {
                    assert(parts[0] == s.take(i));
                    if s.take(i).contains(c) {
                        let j = choose|j: int| 0 <= j < s.take(i).len() && s.take(i)[j] == c;
                        assert(s[j] == c);
                    }
                } else {
                    assert(parts[k] == rest[k - 1]);
                }
            }
        },
        None => {
            let parts = split_seq(s, c);
            assert(parts[0] == s);
            if s.contains(c) {
                let j = choose|j: int| 0 <= j < s.len() && s[j] == c;
                assert(s[j] == c);
            }
        },
    }
}

/// Splits `s` on the character `c`.
pub fn split_str(s: &str, c: char) -> (r: Vec<String>)
    ensures
        r.deep_view() == split_seq(s@, c),
{
    let len = s.unicode_len();
    let mut out: Vec<String> = Vec::new();
    let mut start: usize = 0;
    let mut i: usize = 0;
    proof {
        assert(s@.skip(0) =~= s@);
        assert(out.deep_view() =~= Seq::<Seq<char>>::empty());
        assert(out.deep_view() + split_seq(s@, c) =~= split_seq(s@, c));
    }
    while i < len
        invariant
            len == s@.len(),
            0 <= start <= i <= len,
            forall|j: int| start <= j < i ==> s@[j] != c,
            out.deep_view() + split_seq(s@.skip(start as int), c) =~= split_seq(s@, c),
        decreases len - i,
    {
        if s.get_char(i) == c {
            let piece = substring(s, start, i);
            let ghost pre = out.deep_view();
            proof {
                let t = s@.skip(start as int);
                assert forall|j: int| 0 <= j < i - start implies t[j] != c by {
                    assert(t[j] == s@[start + j]);
                }
                assert(t[i - start] == c);
                lemma_find_char_unique(t, c, i - start);
                assert(t.take(i - start) =~= s@.subrange(start as int, i as int));
                assert(t.skip(i - start + 1) =~= s@.skip(i + 1));
                assert(split_seq(t, c) == seq![piece@] + split_seq(s@.skip(i + 1), c));
            }
            out.push(piece);
            proof {
                assert(out.deep_view() =~= pre.push(piece@));
                assert(pre.push(piece@) + split_seq(s@.skip(i + 1), c)
                    =~= pre + (seq![piece@] + split_seq(s@.skip(i + 1), c)));
            }
            start = i + 1;
        }
        i = i + 1;
    }
    let piece = substring(s, start, len);
    let ghost pre = out.deep_view();
    proof {
        let t = s@.skip(start as int);
        assert forall|j: int| 0 <= j < t.len() implies t[j] != c by {
            assert(t[j] == s@[start + j]);
        }
        lemma_find_char(t, c);
        if spec_find_char(t, c) is Some {
            let k = spec_find_char(t, c)->Some_0;
            assert(t[k] == c);
        }
        assert(t =~= s@.subrange(start as int, len as int));
        assert(split_seq(t, c) == seq![t]);
    }
    out.push(piece);
    proof {
        assert(out.deep_view() =~= pre.push(piece@));
        assert(pre.push(piece@) =~= pre + seq![piece@]);
        assert(out.deep_view() =~= split_seq(s@, c));
    }
    out
}

/// The pieces joined with the separator between consecutive pieces.
pub open spec fn join_seq(parts: Seq<Seq<char>>, sep: Seq<char>) -> Seq<char>
    decreases parts.len(),
{
    if parts.len() == 0 {
        Seq::empty()
    } else if parts.len() == 1 {
        parts[0]
    } else {
        parts[0] + sep + join_seq(parts.skip(1), sep)
    }
}

/// Appending one piece appends one separator and the piece.
pub proof fn lemma_join_push(parts: Seq<Seq<char>>, p: Seq<char>, sep: Seq<char>)
    requires
        parts.len() >= 1,
    ensures
        join_seq(parts.push(p), sep) == join_seq(parts, sep) + sep + p,
    decreases parts.len(),
{
    if parts.len() == 1 {
        assert(parts.push(p).skip(1) =~= seq![p]);
        assert(join_seq(seq![p], sep) == p);
        assert(join_seq(parts.push(p), sep) =~= join_seq(parts, sep) + sep + p);
    } else {
        lemma_join_push(parts.skip(1), p, sep);
        assert(parts.push(p).skip(1) =~= parts.skip(1).push(p));
        assert(parts.push(p)[0] == parts[0]);
        assert(join_seq(parts.push(p), sep)
            =~= join_seq(parts, sep) + sep + p);
    }
}

/// Joins the strings with the separator between consecutive entries.
pub fn join_strings(v: &Vec<String>, sep: &str) -> (r: String)
    ensures
        r@ == join_seq(v.deep_view(), sep@),
{
    let mut out = String::new();
    if v.len() == 0 {
        return out;
    }
    out.append(v[0].as_str());
    let mut i: usize = 1;
    while i < v.len()
        invariant
            1 <= i <= v.len(),
            v.deep_view().len() == v.len(),
            out@ == join_seq(v.deep_view().take(i as int), sep@),
        decreases v.len() - i,
    {
        out.append(sep);
        out.append(v[i].as_str());
        proof {
            let dv = v.deep_view();
            assert(dv.take(i as int).len() == i);
            lemma_join_push(dv.take(i as int), dv[i as int], sep@);
            assert(dv.take(i + 1) =~= dv.take(i as int).push(dv[i as int]));
        }
        i = i + 1;
    }
    proof {
        assert(v.deep_view().take(v.len() as int) =~= v.deep_view());
    }
    out
}

/// Joining non-empty, separator-free pieces and splitting again returns the pieces.
pub proof fn lemma_split_join(parts: Seq<Seq<char>>, c: char)
    requires
        parts.len() >= 1,
        forall|k: int| 0 <= k < parts.len() ==> !(#[trigger] parts[k]).contains(c),
    ensures
        split_seq(join_seq(parts, seq![c]), c) == parts,
    decreases parts.len(),
{
    let sep = seq![c];
    let joined = join_seq(parts, sep);
    if parts.len() == 1 {
        assert(joined == parts[0]);
        lemma_find_char(joined, c);
        if spec_find_char(joined, c) is Some {
            let k = spec_find_char(joined, c)->Some_0;
            assert(parts[0][k] == c);
            assert(parts[0].contains(c));
        }
        assert(split_seq(joined, c) =~= parts);
    } else {
        lemma_split_join(parts.skip(1), c);
        let p0 = parts[0];
        assert(joined == p0 + sep + join_seq(parts.skip(1), sep));
        assert forall|j: int| 0 <= j < p0.len() implies joined[j] != c by {
            assert(joined[j] == p0[j]);
            if p0[j] == c {
                assert(p0.contains(c));
            }
        }
        assert(joined[p0.len() as int] == c);
        lemma_find_char_unique(joined, c, p0.len() as int);
        assert(joined.take(p0.len() as int) =~= p0);
        assert(joined.skip(p0.len() as int + 1) =~= join_seq(parts.skip(1), sep));
        assert(split_seq(joined, c) == seq![p0] + split_seq(join_seq(parts.skip(1), sep), c));
        assert(seq![p0] + parts.skip(1) =~= parts);
    }
}

/// Index of the first occurrence of `f` as a substring of `s`, if any.
pub open spec fn spec_find_sub(s: Seq<char>, f: Seq<char>) -> Option<int>
    decreases s.len(),
{
    if is_substring_at(s, f, 0) {
        Some(0)
    } else if s.len() == 0 {
        None
    } else {
        match spec_find_sub(s.skip(1), f) {
            Some(i) => Some(i + 1),
            None => None,
        }
    }
}

/// The result of `spec_find_sub` is the least occurrence.
pub proof fn lemma_find_sub(s: Seq<char>, f: Seq<char>)
    ensures
        match spec_find_sub(s, f) {
            Some(i) => is_substring_at(s, f, i) && forall|j: int| 0 <= j < i
                ==> !is_substring_at(s, f, j),
            None => forall|j: int| !is_substring_at(s, f, j),
        },
    decreases s.len(),
{
    if !is_substring_at(s, f, 0) && s.len() > 0 {
        lemma_find_sub(s.skip(1), f);
        assert forall|j: int| 1 <= j implies
            (is_substring_at(s, f, j) <==> is_substring_at(s.skip(1), f, j - 1)) by {
            if j + f.len() <= s.len() {
                assert(s.skip(1).subrange(j - 1, j - 1 + f.len() as int)
                    =~= s.subrange(j, j + f.len() as int));
            }
        }
    }
}

/// A least occurrence is what `spec_find_sub` yields.
pub proof fn lemma_find_sub_unique(s: Seq<char>, f: Seq<char>, i: int)
    requires
        is_substring_at(s, f, i),
        forall|j: int| 0 <= j < i ==> !is_substring_at(s, f, j),
    ensures
        spec_find_sub(s, f) == Some(i),
{
    lemma_find_sub(s, f);
    match spec_find_sub(s, f) {
        Some(k) => {
            if k < i {
                assert(!is_substring_at(s, f, k));
            }
            if k > i {
                assert(!is_substring_at(s, f, i));
            }
        },
        None => {
            assert(!is_substring_at(s, f, i));
        },
    }
}

/// Finds the first occurrence of `f` in `s` at or after position `lo`.
pub fn find_sub_from(s: &str, f: &str, lo: usize) -> (r: Option<usize>)
    requires
        f@.len() >= 1,
        lo <= s@.len(),
    ensures
        match r {
            Some(i) => lo <= i && is_substring_at(s@, f@, i as int) && forall|j: int|
                lo <= j < i ==> !is_substring_at(s@, f@, j),
            None => forall|j: int| lo <= j ==> !is_substring_at(s@, f@, j),
        },
{
    let slen = s.unicode_len();
    let flen = f.unicode_len();
    if flen > slen || lo > slen - flen {
        assert forall|j: int| lo <= j implies !is_substring_at(s@, f@, j) by {}
        return None;
    }
    let mut i: usize = lo;
    while i <= slen - flen
        invariant
            slen == s@.len(),
            flen == f@.len(),
            1 <= flen <= slen,
            lo <= i <= slen - flen + 1,
            forall|j: int| lo <= j < i ==> !is_substring_at(s@, f@, j),
        decreases slen - i,
    {
        let mut k: usize = 0;
        let mut matched = true;
        while k < flen
            invariant
                slen == s@.len(),
                flen == f@.len(),
                i + flen <= slen,
                0 <= k <= flen,
                matched ==> forall|m: int| 0 <= m < k ==> s@[i + m] == f@[m],
                !matched ==> !is_substring_at(s@, f@, i as int),
            decreases flen - k,
        {
            if s.get_char(i + k) != f.get_char(k) {
                proof {
                    if is_substring_at(s@, f@, i as int) {
                        assert(s@.subrange(i as int, i + f@.len() as int)[k as int]
                            == f@[k as int]);
                    }
                }
                matched = false;
                k = flen;
            } else {
                k = k + 1;
            }
        }
        if matched {
            proof {
                assert(s@.subrange(i as int, i + f@.len() as int) =~= f@);
            }
            return Some(i);
        }
        i = i + 1;
    }
    assert forall|j: int| lo <= j implies !is_substring_at(s@, f@, j) by {
        if j + f@.len() <= s@.len() {
            assert(j < i);
        }
    }
    None
}

/// Replaces every non-overlapping occurrence of `from` with `to`, scanning
/// left to right, as `str::replace` does.
pub open spec fn replace_seq(s: Seq<char>, from: Seq<char>, to: Seq<char>) -> Seq<char>
    recommends
        from.len() >= 1,
    decreases s.len(),
    via replace_seq_dec
{
    if from.len() == 0 {
        s
    } else {
        match spec_find_sub(s, from) {
            Some(i) => s.take(i) + to + replace_seq(s.skip(i + from.len()), from, to),
            None => s,
        }
    }
}

#[via_fn]
proof fn replace_seq_dec(s: Seq<char>, from: Seq<char>, to: Seq<char>) {
    lemma_find_sub(s, from);
}

pub fn replace_str(s: &str, from: &str, to: &str) -> (r: String)
    requires
        from@.len() >= 1,
    ensures
        r@ == replace_seq(s@, from@, to@),
{
    let slen = s.unicode_len();
    let flen = from.unicode_len();
    let mut out = String::new();
    let mut pos: usize = 0;
    proof {
        assert(s@.skip(0) =~= s@);
    }
    loop
        invariant
            slen == s@.len(),
            flen == from@.len(),
            flen >= 1,
            0 <= pos <= slen,
            out@ + replace_seq(s@.skip(pos as int), from@, to@) =~= replace_seq(s@, from@, to@),
        decreases slen - pos,
    {
        match find_sub_from(s, from, pos) {
            Some(i) => {
                proof {
                    let t = s@.skip(pos as int);
                    assert(is_substring_at(t, from@, i - pos)) by {
                        assert(t.subrange(i - pos, i - pos + from@.len() as int)
                            =~= s@.subrange(i as int, i + from@.len() as int));
                    }
                    assert forall|j: int| 0 <= j < i - pos implies
                        !is_substring_at(t, from@, j) by {
                        if j + from@.len() <= t.len() {
                            assert(t.subrange(j, j + from@.len() as int)
                                =~= s@.subrange(pos + j, pos + j + from@.len() as int));
                            assert(!is_substring_at(s@, from@, pos + j));
                        }
                    }
                    lemma_find_sub_unique(t, from@, i - pos);
                    assert(t.take(i - pos) =~= s@.subrange(pos as int, i as int));
                    assert(t.skip(i - pos + from@.len() as int)
                        =~= s@.skip(i + from@.len() as int));
                }
                let piece = substring(s, pos, i);
                out.append(piece.as_str());
                out.append(to);
                pos = i + flen;
            },
            None => {
                proof {
                    let t = s@.skip(pos as int);
                    assert forall|j: int| !is_substring_at(t, from@, j) by {
                        if 0 <= j && j + from@.len() <= t.len() {
                            assert(t.subrange(j, j + from@.len() as int)
                                =~= s@.subrange(pos + j, pos + j + from@.len() as int));
                            assert(!is_substring_at(s@, from@, pos + j));
                        }
                    }
                    lemma_find_sub(t, from@);
                    if spec_find_sub(t, from@) is Some {
                        let k = spec_find_sub(t, from@)->Some_0;
                        assert(!is_substring_at(t, from@, k));
                    }
                    assert(t =~= s@.subrange(pos as int, slen as int));
                }
                let piece = substring(s, pos, slen);
                out.append(piece.as_str());
                return out;
            },
        }
    }
}

/// Strips a single leading character `c`, when present.
pub fn strip_prefix_char(s: &str, c: char) -> (r: Option<String>)
    ensures
        match r {
            Some(t) => s@.len() >= 1 && s@[0] == c && t@ == s@.skip(1),
            None => s@.len() == 0 || s@[0] != c,
        },
{
    let len = s.unicode_len();
    if len == 0 {
        return None;
    }
    if s.get_char(0) == c {
        let t = substring(s, 1, len);
        proof {
            assert(s@.subrange(1, len as int) =~= s@.skip(1));
        }
        Some(t)
    } else {
        None
    }
}

/// Decimal digit characters and their value.
pub open spec fn is_digit(c: char) -> bool {
    '0' <= c && c <= '9'
}

pub open spec fn digit_val(c: char) -> int {
    c as int - '0' as int
}

/// Value of a decimal digit string, most significant digit first.
pub open spec fn dec_value(s: Seq<char>) -> int
    decreases s.len(),
{
    if s.len() == 0 {
        0
    } else {
        dec_value(s.take(s.len() - 1)) * 10 + digit_val(s[s.len() - 1])
    }
}

/// A longer digit string never has a smaller value.
pub proof fn lemma_dec_value_prefix_le(s: Seq<char>, k: int)
    requires
        0 <= k <= s.len(),
        forall|j: int| 0 <= j < s.len() ==> is_digit(#[trigger] s[j]),
    ensures
        dec_value(s.take(k)) <= dec_value(s),
        dec_value(s) >= 0,
    decreases s.len() - k,
{
    if k == s.len() {
        assert(s.take(k) =~= s);
        lemma_dec_value_nonneg(s);
    } else {
        lemma_dec_value_prefix_le(s, k + 1);
        lemma_dec_value_nonneg(s.take(k));
        assert(s.take(k + 1).take(k) =~= s.take(k));
        assert(s.take(k + 1)[k] == s[k]);
        assert(dec_value(s.take(k + 1)) == dec_value(s.take(k)) * 10 + digit_val(s[k]));
    }
}

pub proof fn lemma_dec_value_nonneg(s: Seq<char>)
    requires
        forall|j: int| 0 <= j < s.len() ==> is_digit(#[trigger] s[j]),
    ensures
        dec_value(s) >= 0,
    decreases s.len(),
{
    if s.len() > 0 {
        assert forall|j: int| 0 <= j < s.len() - 1 implies is_digit(#[trigger] s.take(
            s.len() - 1,
        )[j]) by {
            assert(s.take(s.len() - 1)[j] == s[j]);
        }
        lemma_dec_value_nonneg(s.take(s.len() - 1));
    }
}

/// All characters are decimal digits.
pub open spec fn all_digits(t: Seq<char>) -> bool {
    forall|j: int| 0 <= j < t.len() ==> is_digit(#[trigger] t[j])
}

/// Value of a digit string under `u16` parsing: one or more digits whose
/// value fits in 16 bits.
pub open spec fn parse_u16_digits(t: Seq<char>) -> Option<u16> {
    if t.len() == 0 {
        None
    } else if !all_digits(t) {
        None
    } else if dec_value(t) > 65535 {
        None
    } else {
        Some(dec_value(t) as u16)
    }
}

/// What `str::parse::<u16>` accepts: an optional leading `+`, then one or
/// more decimal digits whose value fits in 16 bits.
pub open spec fn spec_parse_u16(s: Seq<char>) -> Option<u16> {
    if s.len() > 0 && s[0] == '+' {
        parse_u16_digits(s.skip(1))
    } else {
        parse_u16_digits(s)
    }
}

/// Parses a 16-bit unsigned decimal number the way `str::parse::<u16>` does.
pub fn parse_u16(s: &str) -> (r: Option<u16>)
    ensures
        r == spec_parse_u16(s@),
{
    let len = s.unicode_len();
    let mut start: usize = 0;
    if len > 0 && s.get_char(0) == '+' {
        start = 1;
    }
    let ghost t = if s@.len() > 0 && s@[0] == '+' {
        s@.skip(1)
    } else {
        s@
    };
    if start >= len {
        proof {
            assert(t.len() == 0);
        }
        return None;
    }
    let mut acc: u32 = 0;
    let mut i: usize = start;
    while i < len
        invariant
            len == s@.len(),
            start <= i <= len,
            start == if s@.len() > 0 && s@[0] == '+' { 1int } else { 0int },
            t == s@.skip(start as int),
            t == if s@.len() > 0 && s@[0] == '+' { s@.skip(1) } else { s@ },
            start < len,
            forall|j: int| 0 <= j < i - start ==> is_digit(#[trigger] t[j]),
            acc == dec_value(t.take(i - start)),
            acc <= 65535,
        decreases len - i,
    {
        let c = s.get_char(i);
        if !(c >= '0' && c <= '9') {
            proof {
                assert(t[i - start] == s@[i as int]);
                assert(!all_digits(t)) by {
                    assert(!is_digit(t[i - start]));
                }
                assert(parse_u16_digits(t) is None);
            }
            return None;
        }
        proof {
            assert(t[i - start] == s@[i as int]);
            assert(t.take(i - start + 1).take(i - start) =~= t.take(i - start));
            assert(t.take(i - start + 1)[i - start] == t[i - start]);
        }
        let d: u32 = (c as u32) - 48;
        acc = acc * 10 + d;
        i = i + 1;
        if acc > 65535 {
            proof {
                assert(dec_value(t.take(i - start)) > 65535);
                if all_digits(t) {
                    lemma_dec_value_prefix_le(t, i - start);
                }
                assert(parse_u16_digits(t) is None);
            }
            return None;
        }
    }
    proof {
        assert(t.take(i - start) =~= t);
        assert(all_digits(t));
        assert(parse_u16_digits(t) == Some(acc as u16));
    }
    Some(acc as u16)
}

/// The character for one decimal digit.
pub open spec fn dec_digit_char(d: int) -> char {
    if d == 0 {
        '0'
    } else if d == 1 {
        '1'
    } else if d == 2 {
        '2'
    } else if d == 3 {
        '3'
    } else if d == 4 {
        '4'
    } else if d == 5 {
        '5'
    } else if d == 6 {
        '6'
    } else if d == 7 {
        '7'
    } else if d == 8 {
        '8'
    } else {
        '9'
    }
}

/// Decimal rendering of a non-negative integer, without sign or padding.
pub open spec fn dec_str(n: int) -> Seq<char>
    recommends
        n >= 0,
    decreases n,
{
    if n < 10 {
        seq![dec_digit_char(n)]
    } else {
        dec_str(n / 10).push(dec_digit_char(n % 10))
    }
}

fn digit_char_exec(d: usize) -> (r: char)
    requires
        d < 10,
    ensures
        r == dec_digit_char(d as int),
{
    match d {
        0 => '0',
        1 => '1',
        2 => '2',
        3 => '3',
        4 => '4',
        5 => '5',
        6 => '6',
        7 => '7',
        8 => '8',
        _ => '9',
    }
}

/// Renders `n` in decimal.
pub fn usize_to_string(n: usize) -> (r: String)
    ensures
        r@ == dec_str(n as int),
    decreases n,
{
    if n < 10 {
        let mut cs: Vec<char> = Vec::new();
        cs.push(digit_char_exec(n));
        proof {
            assert(cs@ =~= seq![dec_digit_char(n as int)]);
        }
        string_from_chars(&cs)
    } else {
        let mut r = usize_to_string(n / 10);
        let mut cs: Vec<char> = Vec::new();
        cs.push(digit_char_exec(n % 10));
        proof {
            assert(cs@ =~= seq![dec_digit_char(n as int % 10)]);
        }
        let tail = string_from_chars(&cs);
        r.append(tail.as_str());
        proof {
            assert(dec_str(n as int / 10) + seq![dec_digit_char(n as int % 10)]
                =~= dec_str(n as int / 10).push(dec_digit_char(n as int % 10)));
        }
        r
    }
}

/// Lexicographic order on character sequences, by character value, with a
/// proper prefix ordered first. This is the order `String` comparison gives.
pub open spec fn seq_le(a: Seq<char>, b: Seq<char>) -> bool
    decreases a.len(),
{
    if a.len() == 0 {
        true
    } else if b.len() == 0 {
        false
    } else if (a[0] as u32) < (b[0] as u32) {
        true
    } else if (a[0] as u32) > (b[0] as u32) {
        false
    } else {
        seq_le(a.skip(1), b.skip(1))
    }
}

pub open spec fn seq_lt(a: Seq<char>, b: Seq<char>) -> bool {
    seq_le(a, b) && a != b
}

/// `seq_le` is total.
pub proof fn lemma_seq_le_total(a: Seq<char>, b: Seq<char>)
    ensures
        seq_le(a, b) || seq_le(b, a),
    decreases a.len(),
{
    if a.len() > 0 && b.len() > 0 {
        vstd::utf8::char_u32_cast(a[0], a[0] as u32);
        vstd::utf8::char_u32_cast(b[0], b[0] as u32);
        if a[0] == b[0] {
            lemma_seq_le_total(a.skip(1), b.skip(1));
        }
    }
}

/// `seq_le` both ways means equality.
pub proof fn lemma_seq_le_antisym(a: Seq<char>, b: Seq<char>)
    requires
        seq_le(a, b),
        seq_le(b, a),
    ensures
        a == b,
    decreases a.len(),
{
    if a.len() == 0 {
        assert(b.len() == 0);
        assert(a =~= b);
    } else {
        vstd::utf8::char_u32_cast(a[0], a[0] as u32);
        vstd::utf8::char_u32_cast(b[0], b[0] as u32);
        assert(a[0] == b[0]);
        lemma_seq_le_antisym(a.skip(1), b.skip(1));
        assert(a =~= seq![a[0]] + a.skip(1));
        assert(b =~= seq![b[0]] + b.skip(1));
    }
}

/// `seq_le` is transitive.
pub proof fn lemma_seq_le_trans(a: Seq<char>, b: Seq<char>, c: Seq<char>)
    requires
        seq_le(a, b),
        seq_le(b, c),
    ensures
        seq_le(a, c),
    decreases a.len(),
{
    if a.len() > 0 && b.len() > 0 && c.len() > 0 {
        vstd::utf8::char_u32_cast(a[0], a[0] as u32);
        vstd::utf8::char_u32_cast(b[0], b[0] as u32);
        vstd::utf8::char_u32_cast(c[0], c[0] as u32);
        if a[0] == b[0] && b[0] == c[0] {
            lemma_seq_le_trans(a.skip(1), b.skip(1), c.skip(1));
        }
    }
}

/// Character-wise comparison realizing `seq_le`.
pub fn str_le(a: &str, b: &str) -> (r: bool)
    ensures
        r == seq_le(a@, b@),
{
    let alen = a.unicode_len();
    let blen = b.unicode_len();
    let mut i: usize = 0;
    proof {
        assert(a@.skip(0) =~= a@);
        assert(b@.skip(0) =~= b@);
    }
    loop
        invariant
            alen == a@.len(),
            blen == b@.len(),
            0 <= i <= alen,
            i <= blen,
            forall|j: int| 0 <= j < i ==> a@[j] == b@[j],
            seq_le(a@, b@) == seq_le(a@.skip(i as int), b@.skip(i as int)),
        decreases alen - i,
    {
        if i >= alen {
            assert(a@.skip(i as int).len() == 0);
            return true;
        }
        if i >= blen {
            assert(b@.skip(i as int).len() == 0);
            assert(a@.skip(i as int).len() > 0);
            return false;
        }
        let ca = a.get_char(i);
        let cb = b.get_char(i);
        proof {
            assert(a@.skip(i as int)[0] == a@[i as int]);
            assert(b@.skip(i as int)[0] == b@[i as int]);
            assert(a@.skip(i as int).skip(1) =~= a@.skip(i + 1));
            assert(b@.skip(i as int).skip(1) =~= b@.skip(i + 1));
        }
        if (ca as u32) < (cb as u32) {
            return true;
        }
        if (ca as u32) > (cb as u32) {
            return false;
        }
        proof {
            assert(ca == cb) by {
                assert(ca as u32 == cb as u32);
                vstd::utf8::char_u32_cast(ca, ca as u32);
                vstd::utf8::char_u32_cast(cb, cb as u32);
            }
        }
        i = i + 1;
    }
}

/// Strictly sorted in `seq_lt`: sorted with no duplicates.
pub open spec fn strictly_sorted(s: Seq<Seq<char>>) -> bool {
    forall|i: int, j: int| 0 <= i < j < s.len() ==> seq_lt(#[trigger] s[i], #[trigger] s[j])
}

/// Insertion of `x` into a sorted, duplicate-free sequence: before the first
/// entry it is not greater than, or dropped when that entry equals it.
pub open spec fn insert_sorted_spec(s: Seq<Seq<char>>, x: Seq<char>) -> Seq<Seq<char>>
    decreases s.len(),
{
    if s.len() == 0 {
        seq![x]
    } else if x == s[0] {
        s
    } else if seq_lt(x, s[0]) {
        seq![x] + s
    } else {
        seq![s[0]] + insert_sorted_spec(s.skip(1), x)
    }
}

/// The distinct entries of `s` in ascending `seq_lt` order.
pub open spec fn sort_dedup_spec(s: Seq<Seq<char>>) -> Seq<Seq<char>>
    decreases s.len(),
{
    if s.len() == 0 {
        Seq::empty()
    } else {
        insert_sorted_spec(sort_dedup_spec(s.take(s.len() - 1)), s[s.len() - 1])
    }
}

/// `insert_sorted_spec` holds exactly the old entries and `x`.
pub proof fn lemma_insert_sorted_contains(s: Seq<Seq<char>>, x: Seq<char>, y: Seq<char>)
    ensures
        insert_sorted_spec(s, x).contains(y) <==> (s.contains(y) || y == x),
    decreases s.len(),
{
    let r = insert_sorted_spec(s, x);
    if s.len() == 0 {
        assert(r =~= seq![x]);
        if y == x {
            assert(r[0] == y);
        }
        if r.contains(y) {
            let k = choose|k: int| 0 <= k < r.len() && r[k] == y;
            assert(k == 0);
        }
    } else if x == s[0] {
        if y == x {
            assert(s[0] == y);
        }
    } else if seq_lt(x, s[0]) {
        assert(r == seq![x] + s);
        if r.contains(y) {
            let k = choose|k: int| 0 <= k < r.len() && r[k] == y;
            if k == 0 {
                assert(y == x);
            } else {
                assert(s[k - 1] == y);
            }
        }
        if s.contains(y) {
            let k = choose|k: int| 0 <= k < s.len() && s[k] == y;
            assert(r[k + 1] == y);
        }
        if y == x {
            assert(r[0] == y);
        }
    } else {
        lemma_insert_sorted_contains(s.skip(1), x, y);
        let rr = insert_sorted_spec(s.skip(1), x);
        assert(r == seq![s[0]] + rr);
        if r.contains(y) {
            let k = choose|k: int| 0 <= k < r.len() && r[k] == y;
            if k == 0 {
                assert(s[0] == y);
            } else {
                assert(rr[k - 1] == y);
                assert(rr.contains(y));
                if s.skip(1).contains(y) {
                    let m = choose|m: int| 0 <= m < s.skip(1).len() && s.skip(1)[m] == y;
                    assert(s[m + 1] == y);
                }
            }
        }
        if s.contains(y) {
            let k = choose|k: int| 0 <= k < s.len() && s[k] == y;
            if k == 0 {
                assert(r[0] == y);
            } else {
                assert(s.skip(1)[k - 1] == y);
                assert(s.skip(1).contains(y));
                assert(rr.contains(y));
                let m = choose|m: int| 0 <= m < rr.len() && rr[m] == y;
                assert(r[m + 1] == y);
            }
            assert(r.contains(y));
        }
        if y == x {
            assert(rr.contains(y));
            let m = choose|m: int| 0 <= m < rr.len() && rr[m] == y;
            assert(r[m + 1] == y);
        }
    }
}

/// `insert_sorted_spec` keeps a strictly sorted sequence strictly sorted.
pub proof fn lemma_insert_sorted_sorted(s: Seq<Seq<char>>, x: Seq<char>)
    requires
        strictly_sorted(s),
    ensures
        strictly_sorted(insert_sorted_spec(s, x)),
    decreases s.len(),
{
    let r = insert_sorted_spec(s, x);
    if s.len() == 0 {
    } else if x == s[0] {
    } else if seq_lt(x, s[0]) {
        assert forall|p: int, q: int| 0 <= p < q < r.len() implies seq_lt(
            #[trigger] r[p],
            #[trigger] r[q],
        ) by {
            if p == 0 {
                assert(r[q] == s[q - 1]);
                if q - 1 == 0 {
                } else {
                    assert(seq_lt(s[0], s[q - 1]));
                    lemma_seq_le_trans(x, s[0], s[q - 1]);
                    if x == s[q - 1] {
                        lemma_seq_le_antisym(x, s[0]);
                    }
                }
            } else {
                assert(r[p] == s[p - 1]);
                assert(r[q] == s[q - 1]);
            }
        }
    } else {
        assert(strictly_sorted(s.skip(1))) by {
            assert forall|p: int, q: int| 0 <= p < q < s.skip(1).len() implies seq_lt(
                #[trigger] s.skip(1)[p],
                #[trigger] s.skip(1)[q],
            ) by {
                assert(s.skip(1)[p] == s[p + 1]);
                assert(s.skip(1)[q] == s[q + 1]);
            }
        }
        lemma_insert_sorted_sorted(s.skip(1), x);
        let rr = insert_sorted_spec(s.skip(1), x);
        // s[0] is below everything in rr
        assert forall|m: int| 0 <= m < rr.len() implies seq_lt(s[0], #[trigger] rr[m]) by {
            lemma_insert_sorted_contains(s.skip(1), x, rr[m]);
            if rr[m] == x {
                lemma_seq_le_total(x, s[0]);
                assert(seq_le(s[0], x));
                assert(seq_lt(s[0], x));
            } else {
                let k = choose|k: int| 0 <= k < s.skip(1).len() && s.skip(1)[k] == rr[m];
                assert(s[k + 1] == rr[m]);
                assert(seq_lt(s[0], s[k + 1]));
            }
        }
        assert forall|p: int, q: int| 0 <= p < q < r.len() implies seq_lt(
            #[trigger] r[p],
            #[trigger] r[q],
        ) by {
            if p == 0 {
                assert(r[q] == rr[q - 1]);
            } else {
                assert(r[p] == rr[p - 1]);
                assert(r[q] == rr[q - 1]);
            }
        }
    }
}

/// `sort_dedup_spec` is strictly sorted and holds exactly the input's entries.
pub proof fn lemma_sort_dedup_sorted(s: Seq<Seq<char>>)
    ensures
        strictly_sorted(sort_dedup_spec(s)),
    decreases s.len(),
{
    if s.len() > 0 {
        lemma_sort_dedup_sorted(s.take(s.len() - 1));
        lemma_insert_sorted_sorted(sort_dedup_spec(s.take(s.len() - 1)), s[s.len() - 1]);
    }
}

pub proof fn lemma_sort_dedup_contains(s: Seq<Seq<char>>, y: Seq<char>)
    ensures
        sort_dedup_spec(s).contains(y) <==> s.contains(y),
    decreases s.len(),
{
    if s.len() > 0 {
        let pre = s.take(s.len() - 1);
        lemma_sort_dedup_contains(pre, y);
        lemma_insert_sorted_contains(sort_dedup_spec(pre), s[s.len() - 1], y);
        if s.contains(y) {
            let k = choose|k: int| 0 <= k < s.len() && s[k] == y;
            if k < s.len() - 1 {
                assert(pre[k] == y);
                assert(pre.contains(y));
            }
        }
        if pre.contains(y) {
            let k = choose|k: int| 0 <= k < pre.len() && pre[k] == y;
            assert(s[k] == y);
            assert(s.contains(y));
        }
        if y == s[s.len() - 1] {
            assert(s.contains(y));
        }
    }
}

/// Inserts `x` into a vector whose entries realize a sorted, duplicate-free
/// sequence, realizing `insert_sorted_spec`.
pub fn insert_unique_sorted(v: &mut Vec<String>, x: String)
    ensures
        final(v).deep_view() == insert_sorted_spec(old(v).deep_view(), x@),
{
    let ghost dv0 = v.deep_view();
    let ghost xv = x@;
    let mut i: usize = 0;
    proof {
        assert(dv0.take(0) =~= Seq::<Seq<char>>::empty());
        assert(dv0.skip(0) =~= dv0);
        assert(dv0.take(0) + insert_sorted_spec(dv0.skip(0), xv)
            =~= insert_sorted_spec(dv0, xv));
    }
    while i < v.len()
        invariant
            xv == x@,
            dv0 == old(v).deep_view(),
            v.deep_view() == dv0,
            v.deep_view().len() == v.len(),
            0 <= i <= v.len(),
            insert_sorted_spec(dv0, xv) == dv0.take(i as int) + insert_sorted_spec(
                dv0.skip(i as int),
                xv,
            ),
            forall|j: int| 0 <= j < i ==> !seq_le(xv, #[trigger] dv0[j]),
        decreases v.len() - i,
    {
        let xle = str_le(x.as_str(), v[i].as_str());
        proof {
            assert(v@[i as int]@ == dv0[i as int]);
        }
        if xle {
            let cur_le = str_le(v[i].as_str(), x.as_str());
            let ghost tail = dv0.skip(i as int);
            proof {
                assert(tail[0] == dv0[i as int]);
            }
            if cur_le {
                // equal: nothing to insert
                proof {
                    lemma_seq_le_antisym(dv0[i as int], xv);
                    assert(xv == tail[0]);
                    assert(insert_sorted_spec(tail, xv) == tail);
                    assert(dv0.take(i as int) + dv0.skip(i as int) =~= dv0);
                    assert(v.deep_view() == insert_sorted_spec(dv0, xv));
                }
                return;
            }
            // strictly less: insert here
            proof {
                assert(xv != tail[0]);
                assert(seq_lt(xv, tail[0]));
                assert(insert_sorted_spec(tail, xv) == seq![xv] + tail);
            }
            let ghost pre = v.deep_view();
            v.insert(i, x);
            proof {
                assert(v.deep_view() =~= pre.insert(i as int, xv));
                assert(pre.insert(i as int, xv) =~= pre.take(i as int) + (seq![xv] + pre.skip(
                    i as int,
                )));
                assert(v.deep_view() == insert_sorted_spec(dv0, xv));
            }
            return;
        }
        proof {
            let tail = dv0.skip(i as int);
            assert(tail[0] == dv0[i as int]);
            assert(!seq_le(xv, tail[0]));
            lemma_seq_le_total(xv, tail[0]);
            assert(seq_le(tail[0], xv));
            assert(xv != tail[0]);
            assert(!seq_lt(xv, tail[0]));
            assert(insert_sorted_spec(tail, xv) == seq![tail[0]] + insert_sorted_spec(
                tail.skip(1),
                xv,
            ));
            assert(tail.skip(1) =~= dv0.skip(i + 1));
            assert(dv0.take(i as int) + (seq![tail[0]] + insert_sorted_spec(dv0.skip(i + 1), xv))
                =~= dv0.take(i + 1) + insert_sorted_spec(dv0.skip(i + 1), xv));
        }
        i = i + 1;
    }
    proof {
        assert(dv0.skip(i as int).len() == 0);
        assert(insert_sorted_spec(dv0.skip(i as int), xv) == seq![xv]);
        assert(dv0.take(i as int) =~= dv0);
    }
    let ghost pre = v.deep_view();
    v.push(x);
    proof {
        assert(v.deep_view() =~= pre.push(xv));
        assert(pre.push(xv) =~= pre + seq![xv]);
        assert(v.deep_view() == insert_sorted_spec(dv0, xv));
    }
}

/// Sorts the entries and removes duplicates, realizing `sort_dedup_spec`.
pub fn sort_dedup(items: &Vec<String>) -> (r: Vec<String>)
    ensures
        r.deep_view() == sort_dedup_spec(items.deep_view()),
{
    let mut out: Vec<String> = Vec::new();
    let mut i: usize = 0;
    proof {
        assert(items.deep_view().take(0) =~= Seq::<Seq<char>>::empty());
        assert(out.deep_view() =~= Seq::<Seq<char>>::empty());
        assert(sort_dedup_spec(Seq::<Seq<char>>::empty()) == Seq::<Seq<char>>::empty());
    }
    while i < items.len()
        invariant
            0 <= i <= items.len(),
            items.deep_view().len() == items.len(),
            out.deep_view() == sort_dedup_spec(items.deep_view().take(i as int)),
        decreases items.len() - i,
    {
        let s = clone_string(&items[i]);
        insert_unique_sorted(&mut out, s);
        proof {
            let dv = items.deep_view();
            assert(dv.take(i + 1).take(i as int) =~= dv.take(i as int));
            assert(dv.take(i + 1)[i as int] == dv[i as int]);
            assert(dv[i as int] == items@[i as int]@);
        }
        i = i + 1;
    }
    proof {
        assert(items.deep_view().take(items.len() as int) =~= items.deep_view());
    }
    out
}

/// Insertion of `x` into a sorted sequence, before the first entry it is
/// not greater than; equal entries are kept.
pub open spec fn insert_sorted_keep_spec(s: Seq<Seq<char>>, x: Seq<char>) -> Seq<Seq<char>>
    decreases s.len(),
{
    if s.len() == 0 {
        seq![x]
    } else if seq_le(x, s[0]) {
        seq![x] + s
    } else {
        seq![s[0]] + insert_sorted_keep_spec(s.skip(1), x)
    }
}

/// The entries of `s` in ascending `seq_le` order, duplicates kept.
pub open spec fn sort_spec(s: Seq<Seq<char>>) -> Seq<Seq<char>>
    decreases s.len(),
{
    if s.len() == 0 {
        Seq::empty()
    } else {
        insert_sorted_keep_spec(sort_spec(s.take(s.len() - 1)), s[s.len() - 1])
    }
}

/// Inserts `x` into a sorted vector, keeping duplicates, realizing
/// `insert_sorted_keep_spec`.
pub fn insert_sorted_keep(v: &mut Vec<String>, x: String)
    ensures
        final(v).deep_view() == insert_sorted_keep_spec(old(v).deep_view(), x@),
{
    let ghost dv0 = v.deep_view();
    let ghost xv = x@;
    let mut i: usize = 0;
    proof {
        assert(dv0.take(0) =~= Seq::<Seq<char>>::empty());
        assert(dv0.skip(0) =~= dv0);
        assert(dv0.take(0) + insert_sorted_keep_spec(dv0.skip(0), xv)
            =~= insert_sorted_keep_spec(dv0, xv));
    }
    while i < v.len()
        invariant
            xv == x@,
            dv0 == old(v).deep_view(),
            v.deep_view() == dv0,
            v.deep_view().len() == v.len(),
            0 <= i <= v.len(),
            insert_sorted_keep_spec(dv0, xv) == dv0.take(i as int) + insert_sorted_keep_spec(
                dv0.skip(i as int),
                xv,
            ),
        decreases v.len() - i,
    {
        let xle = str_le(x.as_str(), v[i].as_str());
        proof {
            assert(v@[i as int]@ == dv0[i as int]);
            assert(dv0.skip(i as int)[0] == dv0[i as int]);
        }
        if xle {
            proof {
                assert(insert_sorted_keep_spec(dv0.skip(i as int), xv) == seq![xv] + dv0.skip(
                    i as int,
                ));
            }
            let ghost pre = v.deep_view();
            v.insert(i, x);
            proof {
                assert(v.deep_view() =~= pre.insert(i as int, xv));
                assert(pre.insert(i as int, xv) =~= pre.take(i as int) + (seq![xv] + pre.skip(
                    i as int,
                )));
                assert(v.deep_view() == insert_sorted_keep_spec(dv0, xv));
            }
            return;
        }
        proof {
            let tail = dv0.skip(i as int);
            assert(!seq_le(xv, tail[0]));
            assert(insert_sorted_keep_spec(tail, xv) == seq![tail[0]] + insert_sorted_keep_spec(
                tail.skip(1),
                xv,
            ));
            assert(tail.skip(1) =~= dv0.skip(i + 1));
            assert(dv0.take(i as int) + (seq![tail[0]] + insert_sorted_keep_spec(
                dv0.skip(i + 1),
                xv,
            )) =~= dv0.take(i + 1) + insert_sorted_keep_spec(dv0.skip(i + 1), xv));
        }
        i = i + 1;
    }
    proof {
        assert(dv0.skip(i as int).len() == 0);
        assert(insert_sorted_keep_spec(dv0.skip(i as int), xv) == seq![xv]);
        assert(dv0.take(i as int) =~= dv0);
    }
    let ghost pre = v.deep_view();
    v.push(x);
    proof {
        assert(v.deep_view() =~= pre.push(xv));
        assert(pre.push(xv) =~= pre + seq![xv]);
        assert(v.deep_view() == insert_sorted_keep_spec(dv0, xv));
    }
}

/// Sorts the entries, keeping duplicates, realizing `sort_spec`.
pub fn sort_strings(items: &Vec<String>) -> (r: Vec<String>)
    ensures
        r.deep_view() == sort_spec(items.deep_view()),
{
    let mut out: Vec<String> = Vec::new();
    let mut i: usize = 0;
    proof {
        assert(items.deep_view().take(0) =~= Seq::<Seq<char>>::empty());
        assert(out.deep_view() =~= Seq::<Seq<char>>::empty());
        assert(sort_spec(Seq::<Seq<char>>::empty()) == Seq::<Seq<char>>::empty());
    }
    while i < items.len()
        invariant
            0 <= i <= items.len(),
            items.deep_view().len() == items.len(),
            out.deep_view() == sort_spec(items.deep_view().take(i as int)),
        decreases items.len() - i,
    {
        let s = clone_string(&items[i]);
        insert_sorted_keep(&mut out, s);
        proof {
            let dv = items.deep_view();
            assert(dv.take(i + 1).take(i as int) =~= dv.take(i as int));
            assert(dv.take(i + 1)[i as int] == dv[i as int]);
            assert(dv[i as int] == items@[i as int]@);
        }
        i = i + 1;
    }
    proof {
        assert(items.deep_view().take(items.len() as int) =~= items.deep_view());
    }
    out
}

/// `String::clone`, with the view carried over.
pub fn clone_string(s: &String) -> (r: String)
    ensures
        r@ == s@,
{
    s.clone()
}

/// The trailing `/` characters of a path removed.
pub open spec fn spec_trim_trailing_slashes(s: Seq<char>) -> Seq<char>
    decreases s.len(),
{
    if s.len() > 0 && s[s.len() - 1] == '/' {
        spec_trim_trailing_slashes(s.take(s.len() - 1))
    } else {
        s
    }
}

/// The text after the last `/` of `s`; all of `s` when it has none.
pub open spec fn spec_after_last_slash(s: Seq<char>) -> Seq<char> {
    match spec_rfind_char(s, '/') {
        Some(i) => s.skip(i + 1),
        None => s,
    }
}

/// The basename of a path: the part after the last `/` once trailing
/// slashes are dropped; when that is empty, `.` or `..`, the part after the
/// last `/` of the unchanged path.
pub open spec fn spec_file_name(s: Seq<char>) -> Seq<char> {
    let c = spec_after_last_slash(spec_trim_trailing_slashes(s));
    if c.len() == 0 || c == seq!['.'] || c == seq!['.', '.'] {
        spec_after_last_slash(s)
    } else {
        c
    }
}

fn trim_trailing_slashes(s: &str) -> (r: String)
    ensures
        r@ == spec_trim_trailing_slashes(s@),
{
    let len = s.unicode_len();
    let mut end: usize = len;
    proof {
        assert(s@.take(len as int) =~= s@);
    }
    while end > 0 && s.get_char(end - 1) == '/'
        invariant
            len == s@.len(),
            0 <= end <= len,
            spec_trim_trailing_slashes(s@) == spec_trim_trailing_slashes(s@.take(end as int)),
        decreases end,
    {
        proof {
            assert(s@.take(end as int).take(end - 1) =~= s@.take(end - 1));
            assert(s@.take(end as int)[end - 1] == s@[end - 1]);
        }
        end = end - 1;
    }
    proof {
        let t = s@.take(end as int);
        if end > 0 {
            assert(t[t.len() - 1] == s@[end - 1]);
        }
        assert(spec_trim_trailing_slashes(t) == t);
    }
    substring(s, 0, end)
}

fn after_last_slash(s: &str) -> (r: String)
    ensures
        r@ == spec_after_last_slash(s@),
{
    let len = s.unicode_len();
    proof {
        lemma_rfind_char(s@, '/');
    }
    match rfind_char(s, '/') {
        Some(i) => substring(s, i + 1, len),
        None => {
            proof {
                assert(s@.subrange(0, len as int) =~= s@);
            }
            substring(s, 0, len)
        },
    }
}

/// The basename of a path, realizing `spec_file_name`.
pub fn file_name(path: &str) -> (r: String)
    ensures
        r@ == spec_file_name(path@),
{
    let trimmed = trim_trailing_slashes(path);
    let c = after_last_slash(trimmed.as_str());
    let empty = c.as_str().unicode_len() == 0;
    let dot = eq_str(c.as_str(), ".");
    let dotdot = eq_str(c.as_str(), "..");
    proof {
        reveal_strlit(".");
        reveal_strlit("..");
        assert("."@ =~= seq!['.']);
        assert(".."@ =~= seq!['.', '.']);
    }
    if empty || dot || dotdot {
        after_last_slash(path)
    } else {
        c
    }
}

} // verus!
