//! String helpers: exact equality, prefix tests, and splitting on the token
//! delimiter, each tied to a spec-level definition over character sequences.

use vstd::prelude::*;

verus! {

/// Whether `s` is free of the token field delimiter.
pub open spec fn no_colon(s: Seq<char>) -> bool {
    forall|i: int| 0 <= i < s.len() ==> #[trigger] s[i] != ':'
}

/// The parts of `s` between occurrences of `:`, in order, exactly as
/// `str::split(':')` yields them: empties are kept, and a string without
/// a delimiter is one single part.
pub open spec fn split_colon(s: Seq<char>) -> Seq<Seq<char>>
    decreases s.len(),
{
    if s.len() == 0 {
        seq![s]
    } else if s[0] == ':' {
        seq![Seq::<char>::empty()] + split_colon(s.skip(1))
    } else {
        let rest = split_colon(s.skip(1));
        seq![seq![s[0]] + rest[0]] + rest.skip(1)
    }
}

/// Splitting always yields at least one part.
pub proof fn lemma_split_colon_nonempty(s: Seq<char>)
    ensures
        split_colon(s).len() >= 1,
    decreases s.len(),
{
    if s.len() > 0 {
        lemma_split_colon_nonempty(s.skip(1))
    }
}

/// A delimiter-free string is one single part.
pub proof fn lemma_split_colon_whole(s: Seq<char>)
    requires
        no_colon(s),
    ensures
        split_colon(s) =~~= seq![s],
    decreases s.len(),
{
    if s.len() > 0 {
        assert(s[0] != ':');
        lemma_split_colon_whole(s.skip(1));
        assert(seq![s[0]] + s.skip(1) =~= s);
    }
}

/// Splitting `a : b` where `a` is delimiter-free peels off `a` as the
/// first part.
pub proof fn lemma_split_colon_concat(a: Seq<char>, b: Seq<char>)
    requires
        no_colon(a),
    ensures
        split_colon(a + seq![':'] + b) =~~= seq![a] + split_colon(b),
    decreases a.len(),
{
    let s = a + seq![':'] + b;
    lemma_split_colon_nonempty(b);
    if a.len() == 0 {
        assert(s[0] == ':');
        assert(s.skip(1) =~= b);
    } else {
        assert(s[0] == a[0]);
        assert(s[0] != ':');
        assert(s.skip(1) =~= a.skip(1) + seq![':'] + b);
        assert(no_colon(a.skip(1)));
        lemma_split_colon_concat(a.skip(1), b);
        let rest = split_colon(s.skip(1));
        assert(rest[0] == a.skip(1));
        assert(seq![s[0]] + rest[0] =~= a);
        assert(rest.skip(1) =~~= split_colon(b));
    }
}

/// The views of a vector of strings.
pub open spec fn views_of(parts: Seq<String>) -> Seq<Seq<char>> {
    parts.map_values(|p: String| p@)
}

/// Split `s` on `:`, exactly as the splitting spec describes.
pub fn split_colon_exec(s: &str) -> (parts: Vec<String>)
    ensures
        views_of(parts@) =~~= split_colon(s@),
{
    let n = s.unicode_len();
    let mut parts: Vec<String> = Vec::new();
    let mut start: usize = 0;
    let mut i: usize = 0;
    proof {
        lemma_split_colon_nonempty(s@);
        assert(s@.skip(0) =~= s@);
        assert(views_of(parts@) =~= Seq::<Seq<char>>::empty());
    }
    while i < n
        invariant
            0 <= start <= i <= n,
            n == s@.len(),
            no_colon(s@.subrange(start as int, i as int)),
            split_colon(s@) =~~= views_of(parts@) + split_colon(s@.skip(start as int)),
        decreases n - i,
    {
        let c = s.get_char(i);
        if c == ':' {
            let part = s.substring_char(start, i);
            proof {
                assert(s@.skip(start as int) =~= s@.subrange(start as int, i as int) + seq![':']
                    + s@.skip(i as int + 1));
                lemma_split_colon_concat(
                    s@.subrange(start as int, i as int),
                    s@.skip(i as int + 1),
                );
            }
            parts.push(String::from_str(part));
            proof {
                assert(views_of(parts@) =~= views_of(parts@.drop_last()) + seq![
                    s@.subrange(start as int, i as int),
                ]);
            }
            start = i + 1;
        } else {
            proof {
                assert(s@.subrange(start as int, i as int + 1) =~= s@.subrange(
                    start as int,
                    i as int,
                ) + seq![s@[i as int]]);
            }
        }
        i += 1;
    }
    let last = s.substring_char(start, n);
    proof {
        assert(s@.subrange(start as int, n as int) =~= s@.skip(start as int));
        lemma_split_colon_whole(s@.skip(start as int));
    }
    parts.push(String::from_str(last));
    proof {
        assert(views_of(parts@) =~= views_of(parts@.drop_last()) + seq![s@.skip(start as int)]);
    }
    parts
}

/// Character-exact string equality.
pub fn str_eq(a: &str, b: &str) -> (r: bool)
    ensures
        r == (a@ == b@),
{
    let na = a.unicode_len();
    let nb = b.unicode_len();
    if na != nb {
        return false;
    }
    let mut i: usize = 0;
    while i < na
        invariant
            0 <= i <= na,
            na == a@.len(),
            na == b@.len(),
            forall|j: int| 0 <= j < i ==> a@[j] == b@[j],
        decreases na - i,
    {
        if a.get_char(i) != b.get_char(i) {
            return false;
        }
        i += 1;
    }
    proof {
        assert(a@ =~= b@);
    }
    true
}

/// Whether `s` begins with `prefix`, character for character.
pub fn str_starts_with(s: &str, prefix: &str) -> (r: bool)
    ensures
        r == (prefix@.len() <= s@.len() && s@.take(prefix@.len() as int) == prefix@),
{
    let n = s.unicode_len();
    let np = prefix.unicode_len();
    if np > n {
        return false;
    }
    let head = s.substring_char(0, np);
    proof {
        assert(s@.subrange(0, np as int) =~= s@.take(np as int));
    }
    str_eq(head, prefix)
}

/// Whether `c` is ASCII whitespace, the fragment of `char::is_whitespace`
/// that argument text can reach.
pub open spec fn is_ws(c: char) -> bool {
    c == ' ' || c == '\t' || c == '\n' || c == '\u{b}' || c == '\u{c}' || c == '\r'
}

/// `s` without its leading whitespace.
pub open spec fn trim_start(s: Seq<char>) -> Seq<char>
    decreases s.len(),
{
    if s.len() > 0 && is_ws(s[0]) {
        trim_start(s.skip(1))
    } else {
        s
    }
}

/// `s` without its trailing whitespace.
pub open spec fn trim_end(s: Seq<char>) -> Seq<char>
    decreases s.len(),
{
    if s.len() > 0 && is_ws(s.last()) {
        trim_end(s.drop_last())
    } else {
        s
    }
}

/// `s` without leading and trailing whitespace.
pub open spec fn trim(s: Seq<char>) -> Seq<char> {
    trim_end(trim_start(s))
}

/// Exec test for ASCII whitespace.
pub(crate) fn is_ws_exec(c: char) -> (r: bool)
    ensures
        r == is_ws(c),
{
    c == ' ' || c == '\t' || c == '\n' || c == '\u{b}' || c == '\u{c}' || c == '\r'
}

/// Trim leading and trailing whitespace from `s`.
pub fn trim_exec(s: &str) -> (r: String)
    ensures
        r@ == trim(s@),
{
    let n = s.unicode_len();
    let mut i: usize = 0;
    proof {
        assert(s@.skip(0) =~= s@);
    }
    while i < n && is_ws_exec(s.get_char(i))
        invariant
            0 <= i <= n,
            n == s@.len(),
            trim_start(s@) == trim_start(s@.skip(i as int)),
        decreases n - i,
    {
        proof {
            assert(s@.skip(i as int)[0] == s@[i as int]);
            assert(s@.skip(i as int).skip(1) =~= s@.skip(i as int + 1));
        }
        i += 1;
    }
    proof {
        if i < n {
            assert(s@.skip(i as int)[0] == s@[i as int]);
        }
        assert(trim_start(s@) == s@.skip(i as int));
    }
    let mut j: usize = n;
    while j > i && is_ws_exec(s.get_char(j - 1))
        invariant
            i <= j <= n,
            n == s@.len(),
            trim_start(s@) == s@.skip(i as int),
            trim_end(s@.skip(i as int)) == trim_end(s@.subrange(i as int, j as int)),
            j > i ==> trim_end(s@.skip(i as int)) == trim_end(s@.subrange(i as int, j as int)),
        decreases j,
    {
        proof {
            let cur = s@.subrange(i as int, j as int);
            assert(cur.last() == s@[j - 1]);
            assert(cur.drop_last() =~= s@.subrange(i as int, j as int - 1));
        }
        j -= 1;
    }
    proof {
        let cur = s@.subrange(i as int, j as int);
        if j > i {
            assert(cur.last() == s@[j - 1]);
        }
        assert(trim_end(cur) == cur);
        assert(s@.skip(i as int) =~= s@.subrange(i as int, n as int));
    }
    String::from_str(s.substring_char(i, j))
}

/// The first whitespace-delimited word of `s` after leading whitespace,
/// or `None` when `s` is blank.
pub open spec fn first_word(s: Seq<char>) -> Option<Seq<char>> {
    let t = trim_start(s);
    if t.len() == 0 {
        None
    } else {
        Some(word_prefix(t))
    }
}

/// The run of non-whitespace characters at the head of `s`.
pub open spec fn word_prefix(s: Seq<char>) -> Seq<char>
    decreases s.len(),
{
    if s.len() > 0 && !is_ws(s[0]) {
        seq![s[0]] + word_prefix(s.skip(1))
    } else {
        Seq::empty()
    }
}

/// Extract the first whitespace-delimited word of `s`.
pub fn first_word_exec(s: &str) -> (r: Option<String>)
    ensures
        match r {
            Some(w) => first_word(s@) == Some(w@),
            None => first_word(s@) is None,
        },
{
    let n = s.unicode_len();
    let mut i: usize = 0;
    proof {
        assert(s@.skip(0) =~= s@);
    }
    while i < n && is_ws_exec(s.get_char(i))
        invariant
            0 <= i <= n,
            n == s@.len(),
            trim_start(s@) == trim_start(s@.skip(i as int)),
        decreases n - i,
    {
        proof {
            assert(s@.skip(i as int)[0] == s@[i as int]);
            assert(s@.skip(i as int).skip(1) =~= s@.skip(i as int + 1));
        }
        i += 1;
    }
    proof {
        if i < n {
            assert(s@.skip(i as int)[0] == s@[i as int]);
        }
        assert(trim_start(s@) == s@.skip(i as int));
    }
    if i == n {
        return None;
    }
    let start = i;
    let mut j: usize = i;
    while j < n && !is_ws_exec(s.get_char(j))
        invariant
            start <= j <= n,
            n == s@.len(),
            word_prefix(s@.skip(start as int)) =~= s@.subrange(start as int, j as int)
                + word_prefix(s@.skip(j as int)),
        decreases n - j,
    {
        proof {
            assert(s@.skip(j as int)[0] == s@[j as int]);
            assert(s@.skip(j as int).skip(1) =~= s@.skip(j as int + 1));
            assert(s@.subrange(start as int, j as int + 1) =~= s@.subrange(
                start as int,
                j as int,
            ) + seq![s@[j as int]]);
        }
        j += 1;
    }
    proof {
        if j < n {
            assert(s@.skip(j as int)[0] == s@[j as int]);
        }
        assert(word_prefix(s@.skip(j as int)) =~= Seq::<char>::empty());
        assert(word_prefix(s@.skip(start as int)) =~= s@.subrange(start as int, j as int));
    }
    Some(String::from_str(s.substring_char(start, j)))
}

/// Split `s` at its first whitespace character: the word before it, and
/// the remainder after it (empty when there is no whitespace).
pub open spec fn split_first(s: Seq<char>) -> (Seq<char>, Seq<char>) {
    let head = word_prefix(s);
    if head.len() < s.len() {
        (head, s.skip(head.len() as int + 1))
    } else {
        (head, Seq::empty())
    }
}

/// Split `s` at its first whitespace character.
pub fn split_first_exec(s: &str) -> (r: (String, String))
    ensures
        r.0@ == split_first(s@).0,
        r.1@ == split_first(s@).1,
{
    let n = s.unicode_len();
    let mut j: usize = 0;
    proof {
        assert(s@.skip(0) =~= s@);
        assert(s@.subrange(0, 0) =~= Seq::<char>::empty());
    }
    while j < n && !is_ws_exec(s.get_char(j))
        invariant
            0 <= j <= n,
            n == s@.len(),
            word_prefix(s@) =~= s@.subrange(0, j as int) + word_prefix(s@.skip(j as int)),
        decreases n - j,
    {
        proof {
            assert(s@.skip(j as int)[0] == s@[j as int]);
            assert(s@.skip(j as int).skip(1) =~= s@.skip(j as int + 1));
            assert(s@.subrange(0, j as int + 1) =~= s@.subrange(0, j as int) + seq![
                s@[j as int],
            ]);
        }
        j += 1;
    }
    proof {
        if j < n {
            assert(s@.skip(j as int)[0] == s@[j as int]);
        }
        assert(word_prefix(s@.skip(j as int)) =~= Seq::<char>::empty());
        assert(word_prefix(s@) =~= s@.subrange(0, j as int));
    }
    let head = String::from_str(s.substring_char(0, j));
    let rest: String = if j < n {
        let r = s.substring_char(j + 1, n);
        proof {
            assert(r@ =~= s@.skip(j as int + 1));
        }
        String::from_str(r)
    } else {
        String::new()
    };
    (head, rest)
}

/// Whether two characters are equal up to ASCII case.
pub open spec fn chars_eq_nocase(a: char, b: char) -> bool {
    a == b || ('A' <= a && a <= 'Z' && b as int == a as int + 32) || ('a' <= a && a <= 'z'
        && b as int == a as int - 32)
}

/// ASCII-case-insensitive string equality.
pub fn eq_ignore_ascii_case_exec(a: &str, b: &str) -> (r: bool)
    ensures
        r == (a@.len() == b@.len() && (forall|k: int|
            0 <= k < a@.len() ==> chars_eq_nocase(a@[k], #[trigger] b@[k]))),
{
    let na = a.unicode_len();
    let nb = b.unicode_len();
    if na != nb {
        return false;
    }
    let mut i: usize = 0;
    while i < na
        invariant
            0 <= i <= na,
            na == a@.len(),
            na == b@.len(),
            forall|k: int| 0 <= k < i ==> chars_eq_nocase(a@[k], #[trigger] b@[k]),
        decreases na - i,
    {
        let ca = a.get_char(i);
        let cb = b.get_char(i);
        let same = ca == cb || (ca >= 'A' && ca <= 'Z' && cb as u32 == ca as u32 + 32) || (ca >= 'a'
            && ca <= 'z' && ca as u32 == cb as u32 + 32);
        if !same {
            return false;
        }
        i += 1;
    }
    true
}

/// The remainder of `s` after `prefix`, when `s` begins with it.
pub fn strip_prefix_exec(s: &str, prefix: &str) -> (r: Option<String>)
    ensures
        match r {
            Some(rest) => prefix@.len() <= s@.len() && s@.take(prefix@.len() as int) == prefix@
                && rest@ == s@.skip(prefix@.len() as int),
            None => !(prefix@.len() <= s@.len() && s@.take(prefix@.len() as int) == prefix@),
        },
{
    if !str_starts_with(s, prefix) {
        return None;
    }
    let n = s.unicode_len();
    let np = prefix.unicode_len();
    let rest = s.substring_char(np, n);
    proof {
        assert(s@.subrange(np as int, n as int) =~= s@.skip(np as int));
    }
    Some(String::from_str(rest))
}

} // verus!
