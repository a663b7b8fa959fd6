//! The command catalog and the help view: filtering, ordering, grouping,
//! and the page-bounded rendering decision.

use vstd::prelude::*;

use vstd::multiset::Multiset;
use vstd::relations::sorted_by;

verus! {

broadcast use vstd::seq_lib::group_to_multiset_ensures;

/// One command's catalog entry.
#[derive(Clone, Copy, Debug)]
pub struct CommandMeta {
    pub name: &'static str,
    pub desc: &'static str,
    pub category: &'static str,
    pub usage: &'static str,
}

/// Mathematical image of a catalog entry.
pub struct CommandMetaV {
    pub name: Seq<char>,
    pub desc: Seq<char>,
    pub category: Seq<char>,
    pub usage: Seq<char>,
}

impl View for CommandMeta {
    type V = CommandMetaV;

    open spec fn view(&self) -> CommandMetaV {
        CommandMetaV {
            name: self.name@,
            desc: self.desc@,
            category: self.category@,
            usage: self.usage@,
        }
    }
}

/// The views of a vector of catalog entries.
pub open spec fn cmd_views(commands: Seq<CommandMeta>) -> Seq<CommandMetaV> {
    commands.map_values(|c: CommandMeta| c@)
}

/// Lexicographic order on character sequences, by code point.
pub open spec fn lex_le(a: Seq<char>, b: Seq<char>) -> bool
    decreases a.len(),
{
    if a.len() == 0 {
        true
    } else if b.len() == 0 {
        false
    } else if (a[0] as int) < (b[0] as int) {
        true
    } else if (a[0] as int) > (b[0] as int) {
        false
    } else {
        lex_le(a.skip(1), b.skip(1))
    }
}

/// Strict lexicographic order.
pub open spec fn lex_lt(a: Seq<char>, b: Seq<char>) -> bool {
    lex_le(a, b) && a != b
}

/// Any two strings are lexicographically comparable.
pub proof fn lemma_lex_le_total(a: Seq<char>, b: Seq<char>)
    ensures
        lex_le(a, b) || lex_le(b, a),
    decreases a.len(),
{
    if a.len() > 0 && b.len() > 0 && a[0] == b[0] {
        lemma_lex_le_total(a.skip(1), b.skip(1));
    }
}

/// Every string is below itself.
pub proof fn lemma_lex_le_refl(a: Seq<char>)
    ensures
        lex_le(a, a),
    decreases a.len(),
{
    if a.len() > 0 {
        lemma_lex_le_refl(a.skip(1));
    }
}

/// Catalog order is reflexive.
pub proof fn lemma_cmd_le_refl(x: CommandMetaV)
    ensures
        cmd_le(x, x),
{
    lemma_lex_le_refl(x.usage);
}

/// Two strings below each other are equal.
pub proof fn lemma_lex_le_antisymm(a: Seq<char>, b: Seq<char>)
    requires
        lex_le(a, b),
        lex_le(b, a),
    ensures
        a == b,
    decreases a.len(),
{
    if a.len() > 0 && b.len() > 0 && a[0] == b[0] {
        lemma_lex_le_antisymm(a.skip(1), b.skip(1));
        assert(seq![a[0]] + a.skip(1) =~= a);
        assert(seq![b[0]] + b.skip(1) =~= b);
        assert(a =~= b);
    }
}

/// Lexicographic order is transitive.
pub proof fn lemma_lex_le_trans(a: Seq<char>, b: Seq<char>, c: Seq<char>)
    requires
        lex_le(a, b),
        lex_le(b, c),
    ensures
        lex_le(a, c),
    decreases a.len(),
{
    if a.len() > 0 && b.len() > 0 && c.len() > 0 && a[0] == b[0] && b[0] == c[0] {
        lemma_lex_le_trans(a.skip(1), b.skip(1), c.skip(1));
    }
}

/// Decide lexicographic order on strings.
pub fn str_lex_le(a: &str, b: &str) -> (r: bool)
    ensures
        r == lex_le(a@, b@),
{
    let na = a.unicode_len();
    let nb = b.unicode_len();
    let mut i: usize = 0;
    proof {
        assert(a@.skip(0) =~= a@);
        assert(b@.skip(0) =~= b@);
    }
    while i < na && i < nb
        invariant
            0 <= i <= na,
            0 <= i <= nb,
            na == a@.len(),
            nb == b@.len(),
            lex_le(a@, b@) == lex_le(a@.skip(i as int), b@.skip(i as int)),
        decreases na - i,
    {
        let ca = a.get_char(i);
        let cb = b.get_char(i);
        proof {
            assert(a@.skip(i as int)[0] == a@[i as int]);
            assert(b@.skip(i as int)[0] == b@[i as int]);
            assert(a@.skip(i as int).skip(1) =~= a@.skip(i as int + 1));
            assert(b@.skip(i as int).skip(1) =~= b@.skip(i as int + 1));
        }
        if (ca as u32) < (cb as u32) {
            return true;
        }
        if (ca as u32) > (cb as u32) {
            return false;
        }
        i += 1;
    }
    i >= na
}

/// Lexicographic comparison of one field, falling through to the rest
/// of the key on equality.
pub open spec fn then_lex(a: Seq<char>, b: Seq<char>, tie: bool) -> bool {
    lex_lt(a, b) || (a == b && tie)
}

/// Catalog order: by category, then by command name; the remaining
/// fields break any ties, so the order is total and the sorted catalog
/// is a single well-defined sequence.
pub open spec fn cmd_le(x: CommandMetaV, y: CommandMetaV) -> bool {
    then_lex(
        x.category,
        y.category,
        then_lex(x.name, y.name, then_lex(x.desc, y.desc, lex_le(x.usage, y.usage))),
    )
}

/// One tiebreak level is total when its tail is.
proof fn lemma_then_lex_total(a: Seq<char>, b: Seq<char>, ta: bool, tb: bool)
    requires
        ta || tb,
    ensures
        then_lex(a, b, ta) || then_lex(b, a, tb),
{
    lemma_lex_le_total(a, b);
    if lex_le(a, b) && lex_le(b, a) {
        lemma_lex_le_antisymm(a, b);
    }
}

/// One tiebreak level is antisymmetric down to its tail.
proof fn lemma_then_lex_antisymm(a: Seq<char>, b: Seq<char>, ta: bool, tb: bool)
    requires
        then_lex(a, b, ta),
        then_lex(b, a, tb),
    ensures
        a == b && ta && tb,
{
    if lex_lt(a, b) && lex_lt(b, a) {
        lemma_lex_le_antisymm(a, b);
    }
}

/// One tiebreak level is transitive when its tail is.
proof fn lemma_then_lex_trans(a: Seq<char>, b: Seq<char>, c: Seq<char>, t1: bool, t2: bool, t3: bool)
    requires
        then_lex(a, b, t1),
        then_lex(b, c, t2),
        t1 && t2 ==> t3,
    ensures
        then_lex(a, c, t3),
{
    if lex_lt(a, b) && lex_lt(b, c) {
        lemma_lex_le_trans(a, b, c);
        if a == c {
            lemma_lex_le_antisymm(a, b);
        }
    }
}

/// Catalog order is total.
pub proof fn lemma_cmd_le_total(x: CommandMetaV, y: CommandMetaV)
    ensures
        cmd_le(x, y) || cmd_le(y, x),
{
    lemma_lex_le_total(x.usage, y.usage);
    lemma_then_lex_total(
        x.desc,
        y.desc,
        lex_le(x.usage, y.usage),
        lex_le(y.usage, x.usage),
    );
    lemma_then_lex_total(
        x.name,
        y.name,
        then_lex(x.desc, y.desc, lex_le(x.usage, y.usage)),
        then_lex(y.desc, x.desc, lex_le(y.usage, x.usage)),
    );
    lemma_then_lex_total(
        x.category,
        y.category,
        then_lex(x.name, y.name, then_lex(x.desc, y.desc, lex_le(x.usage, y.usage))),
        then_lex(y.name, x.name, then_lex(y.desc, x.desc, lex_le(y.usage, x.usage))),
    );
}

/// Catalog order is antisymmetric: entries below each other are equal.
pub proof fn lemma_cmd_le_antisymm(x: CommandMetaV, y: CommandMetaV)
    requires
        cmd_le(x, y),
        cmd_le(y, x),
    ensures
        x == y,
{
    lemma_then_lex_antisymm(
        x.category,
        y.category,
        then_lex(x.name, y.name, then_lex(x.desc, y.desc, lex_le(x.usage, y.usage))),
        then_lex(y.name, x.name, then_lex(y.desc, x.desc, lex_le(y.usage, x.usage))),
    );
    lemma_then_lex_antisymm(
        x.name,
        y.name,
        then_lex(x.desc, y.desc, lex_le(x.usage, y.usage)),
        then_lex(y.desc, x.desc, lex_le(y.usage, x.usage)),
    );
    lemma_then_lex_antisymm(
        x.desc,
        y.desc,
        lex_le(x.usage, y.usage),
        lex_le(y.usage, x.usage),
    );
    lemma_lex_le_antisymm(x.usage, y.usage);
}

/// Catalog order is transitive.
pub proof fn lemma_cmd_le_trans(x: CommandMetaV, y: CommandMetaV, z: CommandMetaV)
    ensures
        cmd_le(x, y) && cmd_le(y, z) ==> cmd_le(x, z),
{
    if cmd_le(x, y) && cmd_le(y, z) {
        if then_lex(x.name, y.name, then_lex(x.desc, y.desc, lex_le(x.usage, y.usage)))
            && then_lex(y.name, z.name, then_lex(y.desc, z.desc, lex_le(y.usage, z.usage))) {
            if then_lex(x.desc, y.desc, lex_le(x.usage, y.usage)) && then_lex(
                y.desc,
                z.desc,
                lex_le(y.usage, z.usage),
            ) {
                if lex_le(x.usage, y.usage) && lex_le(y.usage, z.usage) {
                    lemma_lex_le_trans(x.usage, y.usage, z.usage);
                }
                lemma_then_lex_trans(
                    x.desc,
                    y.desc,
                    z.desc,
                    lex_le(x.usage, y.usage),
                    lex_le(y.usage, z.usage),
                    lex_le(x.usage, z.usage),
                );
            }
            lemma_then_lex_trans(
                x.name,
                y.name,
                z.name,
                then_lex(x.desc, y.desc, lex_le(x.usage, y.usage)),
                then_lex(y.desc, z.desc, lex_le(y.usage, z.usage)),
                then_lex(x.desc, z.desc, lex_le(x.usage, z.usage)),
            );
        }
        lemma_then_lex_trans(
            x.category,
            y.category,
            z.category,
            then_lex(x.name, y.name, then_lex(x.desc, y.desc, lex_le(x.usage, y.usage))),
            then_lex(y.name, z.name, then_lex(y.desc, z.desc, lex_le(y.usage, z.usage))),
            then_lex(x.name, z.name, then_lex(x.desc, z.desc, lex_le(x.usage, z.usage))),
        );
    }
}

/// Decide catalog order on entries.
fn cmd_le_exec(x: &CommandMeta, y: &CommandMeta) -> (r: bool)
    ensures
        r == cmd_le(x@, y@),
{
    if !crate::strutil::str_eq(x.category, y.category) {
        str_lex_le(x.category, y.category)
    } else if !crate::strutil::str_eq(x.name, y.name) {
        str_lex_le(x.name, y.name)
    } else if !crate::strutil::str_eq(x.desc, y.desc) {
        str_lex_le(x.desc, y.desc)
    } else {
        str_lex_le(x.usage, y.usage)
    }
}

/// The catalog entries that survive a category filter, in catalog order
/// of appearance.
pub open spec fn spec_filtered(cs: Seq<CommandMetaV>, category: Option<Seq<char>>) -> Seq<
    CommandMetaV,
>
    decreases cs.len(),
{
    if cs.len() == 0 {
        Seq::empty()
    } else {
        spec_filtered(cs.drop_last(), category) + (if (match category {
            Some(wanted) => cs.last().category == wanted,
            None => true,
        }) {
            seq![cs.last()]
        } else {
            Seq::empty()
        })
    }
}

/// Filter the catalog to one category, or keep it whole.
fn filter_commands(commands: &Vec<CommandMeta>, category: Option<&str>) -> (r: Vec<CommandMeta>)
    ensures
        cmd_views(r@) == spec_filtered(
            cmd_views(commands@),
            match category {
                Some(w) => Some(w@),
                None => None,
            },
        ),
{
    let ghost cat = match category {
        Some(w) => Some(w@),
        None => None,
    };
    let mut r: Vec<CommandMeta> = Vec::new();
    let n = commands.len();
    let mut i: usize = 0;
    proof {
        assert(cmd_views(commands@).take(0) =~= Seq::<CommandMetaV>::empty());
        assert(cmd_views(r@) =~= Seq::<CommandMetaV>::empty());
    }
    while i < n
        invariant
            0 <= i <= n,
            n == commands@.len(),
            cmd_views(r@) =~~= spec_filtered(cmd_views(commands@).take(i as int), cat),
            cat == (match category {
                Some(w) => Some(w@),
                None => None,
            }),
        decreases n - i,
    {
        let keep = match category {
            Some(wanted) => crate::strutil::str_eq(commands[i].category, wanted),
            None => true,
        };
        proof {
            assert(cmd_views(commands@).take(i as int + 1).drop_last() =~= cmd_views(
                commands@,
            ).take(i as int));
            assert(cmd_views(commands@).take(i as int + 1).last() == commands@[i as int]@);
        }
        if keep {
            r.push(commands[i]);
            proof {
                assert(cmd_views(r@) =~= cmd_views(r@.drop_last()).push(commands@[i as int]@));
            }
        }
        i += 1;
    }
    proof {
        assert(cmd_views(commands@).take(n as int) =~= cmd_views(commands@));
    }
    r
}

/// The catalog restricted to one category and put in catalog order: the
/// one sorted arrangement of the filtered entries.
pub open spec fn spec_sorted_catalog(cs: Seq<CommandMetaV>, category: Option<Seq<char>>) -> Seq<
    CommandMetaV,
> {
    spec_filtered(cs, category).sort_by(|x: CommandMetaV, y: CommandMetaV| cmd_le(x, y))
}

/// Catalog order is a total ordering, so the sorted catalog is unique.
pub proof fn lemma_cmd_le_total_ordering()
    ensures
        vstd::relations::total_ordering(|x: CommandMetaV, y: CommandMetaV| cmd_le(x, y)),
{
    let leq = |x: CommandMetaV, y: CommandMetaV| cmd_le(x, y);
    assert forall|x: CommandMetaV| #[trigger] leq(x, x) by {
        lemma_cmd_le_refl(x);
    }
    assert forall|x: CommandMetaV, y: CommandMetaV| #[trigger] leq(x, y) && #[trigger] leq(y, x)
        implies x == y by {
        lemma_cmd_le_antisymm(x, y);
    }
    assert forall|x: CommandMetaV, y: CommandMetaV, z: CommandMetaV|
        #[trigger] leq(x, y) && #[trigger] leq(y, z) implies leq(x, z) by {
        lemma_cmd_le_trans(x, y, z);
    }
    assert forall|x: CommandMetaV, y: CommandMetaV| #![trigger leq(x, y), leq(y, x)] true implies
        leq(x, y) || leq(y, x) by {
        lemma_cmd_le_total(x, y);
    }
}

/// Filter the catalog by category and sort it by category, then name:
/// the result is exactly the sorted catalog, so it is ordered and
/// carries exactly the surviving entries.
pub fn sorted_commands(commands: &Vec<CommandMeta>, category: Option<&str>) -> (r: Vec<CommandMeta>)
    ensures
        cmd_views(r@) == spec_sorted_catalog(
            cmd_views(commands@),
            match category {
                Some(w) => Some(w@),
                None => None,
            },
        ),
        sorted_by(cmd_views(r@), |x: CommandMetaV, y: CommandMetaV| cmd_le(x, y)),
        cmd_views(r@).to_multiset() == spec_filtered(
            cmd_views(commands@),
            match category {
                Some(w) => Some(w@),
                None => None,
            },
        ).to_multiset(),
{
    let mut rest = filter_commands(commands, category);
    let ghost filtered = cmd_views(rest@);
    let mut out: Vec<CommandMeta> = Vec::new();
    proof {
        assert(cmd_views(out@) =~= Seq::<CommandMetaV>::empty());
        assert(cmd_views(out@).to_multiset().add(cmd_views(rest@).to_multiset())
            =~= filtered.to_multiset());
    }
    while rest.len() > 0
        invariant
            cmd_views(out@).to_multiset().add(cmd_views(rest@).to_multiset())
                == filtered.to_multiset(),
            sorted_by(cmd_views(out@), |x: CommandMetaV, y: CommandMetaV| cmd_le(x, y)),
            forall|i: int, j: int|
                0 <= i < cmd_views(out@).len() && 0 <= j < cmd_views(rest@).len() ==> cmd_le(
                    #[trigger] cmd_views(out@)[i],
                    #[trigger] cmd_views(rest@)[j],
                ),
        decreases rest@.len(),
    {
        let n = rest.len();
        let mut best: usize = 0;
        let mut k: usize = 1;
        proof {
            lemma_cmd_le_refl(rest@[0]@);
        }
        while k < n
            invariant
                0 <= best < k <= n,
                n == rest@.len(),
                forall|j: int| 0 <= j < k ==> cmd_le(rest@[best as int]@, #[trigger] rest@[j]@),
            decreases n - k,
        {
            if !cmd_le_exec(&rest[best], &rest[k]) {
                proof {
                    lemma_cmd_le_total(rest@[best as int]@, rest@[k as int]@);
                    lemma_cmd_le_refl(rest@[k as int]@);
                    assert forall|j: int| 0 <= j < k + 1 implies cmd_le(
                        rest@[k as int]@,
                        #[trigger] rest@[j]@,
                    ) by {
                        if j < k {
                            lemma_cmd_le_trans(rest@[k as int]@, rest@[best as int]@, rest@[j]@);
                        }
                    }
                }
                best = k;
            }
            k += 1;
        }
        let ghost rest0 = rest@;
        let ghost out0 = out@;
        let picked = rest.remove(best);
        out.push(picked);
        proof {
            assert(cmd_views(out@) =~= cmd_views(out0).push(picked@));
            assert(cmd_views(out0).push(picked@).to_multiset() =~= cmd_views(
                out0,
            ).to_multiset().insert(picked@));
            assert(cmd_views(rest0).remove(best as int) =~= cmd_views(rest@));
            assert(cmd_views(rest0)[best as int] == picked@);
            assert(cmd_views(rest0).remove(best as int).to_multiset() =~= cmd_views(
                rest0,
            ).to_multiset().remove(cmd_views(rest0)[best as int]));
            assert(cmd_views(rest0).to_multiset().remove(picked@) =~= cmd_views(
                rest@,
            ).to_multiset());
            assert(cmd_views(out@).to_multiset() =~= cmd_views(out0).to_multiset().insert(
                picked@,
            ));
            assert(cmd_views(out@).to_multiset().add(cmd_views(rest@).to_multiset())
                =~= filtered.to_multiset());
            assert forall|i: int, j: int|
                0 <= i < cmd_views(out@).len() && 0 <= j < cmd_views(rest@).len() implies cmd_le(
                #[trigger] cmd_views(out@)[i],
                #[trigger] cmd_views(rest@)[j],
            ) by {
                let jr = if j < best {
                    j
                } else {
                    j + 1
                };
                cmd_views(rest0).remove_ensures(best as int);
                assert(cmd_views(rest@)[j] == cmd_views(rest0)[jr]);
                if i < cmd_views(out0).len() {
                    assert(cmd_le(cmd_views(out@)[i], cmd_views(rest0)[jr]));
                } else {
                    assert(cmd_views(out@)[i] == picked@);
                    assert(cmd_le(picked@, cmd_views(rest0)[jr]));
                }
            }
            assert forall|i: int, j: int|
                0 <= i < j < cmd_views(out@).len() implies cmd_le(
                #[trigger] cmd_views(out@)[i],
                #[trigger] cmd_views(out@)[j],
            ) by {
                if j < cmd_views(out0).len() {
                    assert(cmd_views(out@)[i] == cmd_views(out0)[i]);
                    assert(cmd_views(out@)[j] == cmd_views(out0)[j]);
                    assert((|x: CommandMetaV, y: CommandMetaV| cmd_le(x, y))(
                        cmd_views(out0)[i],
                        cmd_views(out0)[j],
                    ));
                } else {
                    assert(cmd_views(out@)[j] == picked@);
                    assert(cmd_views(rest0)[best as int] == picked@);
                    assert(cmd_le(cmd_views(out0)[i], picked@));
                }
            }
        }
    }
    proof {
        assert(cmd_views(rest@).to_multiset() =~= Multiset::<CommandMetaV>::empty());
        assert(cmd_views(out@).to_multiset() =~= filtered.to_multiset());
        let leq = |x: CommandMetaV, y: CommandMetaV| cmd_le(x, y);
        lemma_cmd_le_total_ordering();
        filtered.lemma_sort_by_ensures(leq);
        vstd::seq_lib::lemma_sorted_unique(cmd_views(out@), filtered.sort_by(leq), leq);
        assert(cmd_views(out@) =~= filtered.sort_by(leq));
    }
    out
}

/// A letter with its ASCII case raised; anything else is unchanged.
pub open spec fn spec_ascii_upper(c: char) -> char {
    if 'a' <= c && c <= 'z' {
        ((c as u8) - 32) as char
    } else {
        c
    }
}

/// A category name with its first character capitalized for display.
pub open spec fn spec_display_category(s: Seq<char>) -> Seq<char> {
    if s.len() == 0 {
        s
    } else {
        seq![spec_ascii_upper(s[0])] + s.skip(1)
    }
}

/// The capital form of one lowercase ASCII letter, as a string.
fn upper_letter_str(c: char) -> (r: &'static str)
    requires
        'a' <= c && c <= 'z',
    ensures
        r@ =~= seq![spec_ascii_upper(c)],
{
    let r: &'static str = if c == 'a' {
        "A"
    } else if c == 'b' {
        "B"
    } else if c == 'c' {
        "C"
    } else if c == 'd' {
        "D"
    } else if c == 'e' {
        "E"
    } else if c == 'f' {
        "F"
    } else if c == 'g' {
        "G"
    } else if c == 'h' {
        "H"
    } else if c == 'i' {
        "I"
    } else if c == 'j' {
        "J"
    } else if c == 'k' {
        "K"
    } else if c == 'l' {
        "L"
    } else if c == 'm' {
        "M"
    } else if c == 'n' {
        "N"
    } else if c == 'o' {
        "O"
    } else if c == 'p' {
        "P"
    } else if c == 'q' {
        "Q"
    } else if c == 'r' {
        "R"
    } else if c == 's' {
        "S"
    } else if c == 't' {
        "T"
    } else if c == 'u' {
        "U"
    } else if c == 'v' {
        "V"
    } else if c == 'w' {
        "W"
    } else if c == 'x' {
        "X"
    } else if c == 'y' {
        "Y"
    } else {
        "Z"
    };
    proof {
        reveal_strlit("A");
        reveal_strlit("B");
        reveal_strlit("C");
        reveal_strlit("D");
        reveal_strlit("E");
        reveal_strlit("F");
        reveal_strlit("G");
        reveal_strlit("H");
        reveal_strlit("I");
        reveal_strlit("J");
        reveal_strlit("K");
        reveal_strlit("L");
        reveal_strlit("M");
        reveal_strlit("N");
        reveal_strlit("O");
        reveal_strlit("P");
        reveal_strlit("Q");
        reveal_strlit("R");
        reveal_strlit("S");
        reveal_strlit("T");
        reveal_strlit("U");
        reveal_strlit("V");
        reveal_strlit("W");
        reveal_strlit("X");
        reveal_strlit("Y");
        reveal_strlit("Z");
    }
    r
}

/// Capitalize a category name for display; only an ASCII letter changes.
pub fn display_category(category: &str) -> (r: String)
    ensures
        r@ == spec_display_category(category@),
{
    let n = category.unicode_len();
    if n == 0 {
        return String::new();
    }
    let c = category.get_char(0);
    if c >= 'a' && c <= 'z' {
        let mut out = String::from_str(upper_letter_str(c));
        let rest = category.substring_char(1, n);
        proof {
            assert(rest@ =~= category@.skip(1));
        }
        out.append(rest);
        out
    } else {
        proof {
            assert(seq![category@[0]] + category@.skip(1) =~= category@);
        }
        String::from_str(category)
    }
}

/// The grouped help lines from entry `i` on, given the category of the
/// entry before it: a bold category header opens each new group, and
/// every entry is one bullet line.
pub open spec fn spec_group_lines(
    cs: Seq<CommandMetaV>,
    i: int,
    current: Option<Seq<char>>,
) -> Seq<char>
    decreases cs.len() - i,
{
    if i < 0 || i >= cs.len() {
        Seq::empty()
    } else {
        let c = cs[i];
        let header: Seq<char> = if current != Some(c.category) {
            (if i == 0 {
                Seq::<char>::empty()
            } else {
                seq!['\n']
            }) + "**"@ + spec_display_category(c.category) + "**\n"@
        } else {
            Seq::empty()
        };
        header + "\u{2022} !"@ + c.name + " - "@ + c.desc + "\n"@ + spec_group_lines(
            cs,
            i + 1,
            Some(c.category),
        )
    }
}

/// The whole grouped help description: the lines without their trailing
/// newline, or a placeholder for an empty catalog.
pub open spec fn spec_grouped_help(cs: Seq<CommandMetaV>) -> Seq<char> {
    if cs.len() == 0 {
        "No commands available."@
    } else {
        crate::strutil::trim_end(spec_group_lines(cs, 0, None))
    }
}

/// One entry's contribution to the grouped description.
fn group_line_exec(c: &CommandMeta, first: bool, new_category: bool) -> (r: String)
    ensures
        r@ == (if new_category {
            (if first {
                Seq::<char>::empty()
            } else {
                seq!['\n']
            }) + "**"@ + spec_display_category(c.category@) + "**\n"@
        } else {
            Seq::<char>::empty()
        }) + "\u{2022} !"@ + c.name@ + " - "@ + c.desc@ + "\n"@,
{
    let mut out = String::new();
    if new_category {
        if !first {
            out.append("\n");
            proof {
                reveal_strlit("\n");
                assert("\n"@ =~= seq!['\n']);
            }
        }
        out.append("**");
        out.append(display_category(c.category).as_str());
        out.append("**\n");
    }
    out.append("\u{2022} !");
    out.append(c.name);
    out.append(" - ");
    out.append(c.desc);
    out.append("\n");
    out
}

/// Build the grouped help description for an ordered slice of the
/// catalog: category headers with bullet lines beneath them.
pub fn grouped_help_description(commands: &Vec<CommandMeta>) -> (r: String)
    ensures
        r@ == spec_grouped_help(cmd_views(commands@)),
{
    let ghost cs = cmd_views(commands@);
    let n = commands.len();
    if n == 0 {
        return String::from_str("No commands available.");
    }
    let mut out = String::new();
    let mut current: Option<String> = None;
    let mut i: usize = 0;
    while i < n
        invariant
            0 <= i <= n,
            n == commands@.len(),
            cs == cmd_views(commands@),
            i == 0 ==> current is None,
            match current {
                Some(c) => i > 0 && c@ == cs[i - 1].category,
                None => i == 0,
            },
            spec_group_lines(cs, 0, None) =~= out@ + spec_group_lines(
                cs,
                i as int,
                match current {
                    Some(c) => Some(c@),
                    None => None,
                },
            ),
        decreases n - i,
    {
        let new_category = match &current {
            Some(c) => !crate::strutil::str_eq(c.as_str(), commands[i].category),
            None => true,
        };
        let line = group_line_exec(&commands[i], i == 0, new_category);
        proof {
            assert(cs[i as int] == commands@[i as int]@);
        }
        out.append(line.as_str());
        current = Some(String::from_str(commands[i].category));
        i += 1;
    }
    let trimmed = crate::strutil::trim_exec(out.as_str());
    proof {
        lemma_trim_start_noop_of_group(cs);
        assert(crate::strutil::trim(out@) == crate::strutil::trim_end(out@));
    }
    trimmed
}

/// The grouped lines never begin with whitespace, so only the trailing
/// trim has any effect.
proof fn lemma_trim_start_noop_of_group(cs: Seq<CommandMetaV>)
    requires
        cs.len() > 0,
    ensures
        crate::strutil::trim_start(spec_group_lines(cs, 0, None)) == spec_group_lines(cs, 0, None),
{
    reveal_strlit("**");
    reveal_strlit("\u{2022} !");
    let s = spec_group_lines(cs, 0, None);
    assert(s[0] == '*' || s[0] == '\u{2022}');
}

/// The pagination command key for a help session: the family suffix
/// names the category filter.
pub fn help_pagination_command(category: Option<&str>) -> (r: String)
    ensures
        r@ == (match category {
            Some(cat) => "help|"@ + cat@,
            None => "help"@,
        }),
{
    match category {
        Some(cat) => {
            let mut out = String::from_str("help|");
            out.append(cat);
            out
        },
        None => String::from_str("help"),
    }
}

/// The category filter named by a pagination command key.
pub fn category_from_pagination_command(command: &str) -> (r: Option<String>)
    ensures
        match r {
            Some(cat) => "help|"@.len() <= command@.len() && command@.take("help|"@.len() as int)
                == "help|"@ && cat@ == command@.skip("help|"@.len() as int),
            None => !("help|"@.len() <= command@.len() && command@.take("help|"@.len() as int)
                == "help|"@),
        },
{
    crate::strutil::strip_prefix_exec(command, "help|")
}

/// The help view's title.
pub fn help_title() -> (r: String)
    ensures
        r@ == "Available Commands"@,
{
    String::from_str("Available Commands")
}

/// The help view carries no footer note.
pub fn help_footer_note() -> (r: Option<String>)
    ensures
        r is None,
{
    None
}

/// Whether some catalog entry belongs to `category`.
pub open spec fn spec_has_category(cs: Seq<CommandMetaV>, category: Seq<char>) -> bool {
    exists|i: int| 0 <= i < cs.len() && (#[trigger] cs[i]).category == category
}

/// Decide whether any catalog entry belongs to `category`.
pub fn category_known(commands: &Vec<CommandMeta>, category: &str) -> (r: bool)
    ensures
        r == spec_has_category(cmd_views(commands@), category@),
{
    let n = commands.len();
    let mut i: usize = 0;
    while i < n
        invariant
            0 <= i <= n,
            n == commands@.len(),
            forall|j: int|
                0 <= j < i ==> (#[trigger] cmd_views(commands@)[j]).category != category@,
        decreases n - i,
    {
        if crate::strutil::str_eq(commands[i].category, category) {
            proof {
                assert(cmd_views(commands@)[i as int].category == category@);
            }
            return true;
        }
        proof {
            assert(cmd_views(commands@)[i as int] == commands@[i as int]@);
        }
        i += 1;
    }
    false
}

/// The distinct category names of the catalog, in display order; every
/// listed name belongs to some catalog entry.
pub fn known_categories(commands: &Vec<CommandMeta>) -> (r: Vec<String>)
    ensures
        crate::strutil::views_of(r@) == dedup_categories(
            spec_sorted_catalog(cmd_views(commands@), None),
        ),
{
    let sorted = sorted_commands(commands, None);
    let ghost sv = cmd_views(sorted@);
    let mut r: Vec<String> = Vec::new();
    let n = sorted.len();
    let mut i: usize = 0;
    proof {
        assert(sv.take(0) =~= Seq::<CommandMetaV>::empty());
        assert(crate::strutil::views_of(r@) =~= Seq::<Seq<char>>::empty());
    }
    while i < n
        invariant
            0 <= i <= n,
            n == sorted@.len(),
            sv == cmd_views(sorted@),
            crate::strutil::views_of(r@) =~~= dedup_categories(sv.take(i as int)),
        decreases n - i,
    {
        let is_new = match r.last() {
            Some(last) => !crate::strutil::str_eq(last.as_str(), sorted[i].category),
            None => true,
        };
        proof {
            assert(sv.take(i as int + 1).drop_last() =~= sv.take(i as int));
            assert(sv.take(i as int + 1).last() == sorted@[i as int]@);
            if r@.len() > 0 {
                assert(crate::strutil::views_of(r@).last() == r@.last()@);
            }
        }
        if is_new {
            r.push(String::from_str(sorted[i].category));
            proof {
                assert(crate::strutil::views_of(r@) =~= crate::strutil::views_of(
                    r@.drop_last(),
                ).push(sorted@[i as int]@.category));
            }
        }
        i += 1;
    }
    proof {
        assert(sv.take(n as int) =~= sv);
    }
    r
}

/// The category names of an ordered catalog with runs of equal names
/// collapsed: each entry's category is kept only when it differs from
/// the last one kept.
pub open spec fn dedup_categories(s: Seq<CommandMetaV>) -> Seq<Seq<char>>
    decreases s.len(),
{
    if s.len() == 0 {
        Seq::empty()
    } else {
        let prev = dedup_categories(s.drop_last());
        if prev.len() > 0 && prev.last() == s.last().category {
            prev
        } else {
            prev.push(s.last().category)
        }
    }
}

/// Category names capitalized for display and joined with commas.
pub open spec fn spec_display_join(cats: Seq<Seq<char>>) -> Seq<char>
    decreases cats.len(),
{
    if cats.len() == 0 {
        Seq::empty()
    } else if cats.len() == 1 {
        spec_display_category(cats[0])
    } else {
        spec_display_join(cats.drop_last()) + ", "@ + spec_display_category(cats.last())
    }
}

/// The page a help argument asks for, when it is one.
pub open spec fn spec_help_parsed_page(arg: Option<Seq<char>>) -> Option<usize> {
    match arg {
        None => None,
        Some(s) => match crate::numeral::spec_parse_usize(s) {
            Some(p) => if p >= 1 {
                Some(p)
            } else {
                None
            },
            None => None,
        },
    }
}

/// The category a help argument asks for: any argument that is not a
/// valid page number.
pub open spec fn spec_help_category(arg: Option<Seq<char>>) -> Option<Seq<char>> {
    match arg {
        Some(s) => if spec_help_parsed_page(arg) is None {
            Some(s)
        } else {
            None
        },
        None => None,
    }
}

/// How a help request is answered.
pub enum HelpOutcome {
    /// The argument names no known category.
    UnknownCategory { message: String },
    /// Nothing matches the filter.
    NoCommands { message: String },
    /// The requested page is past the last one; nothing is rendered.
    PageOutOfRange { message: String },
    /// A rendered page of the catalog.
    Render {
        embed: crate::view::PaginatedEmbed,
        nav: Vec<crate::view::NavButton>,
        total_pages: usize,
        pagination_command: String,
    },
}

/// Decide and render a help request: an unknown category, an empty
/// catalog, and an out-of-range page are refused with a message; anything
/// else renders the requested page with navigation controls that exist
/// exactly when there is more than one page.
pub fn help_view(
    commands: &Vec<CommandMeta>,
    arg1: Option<&str>,
    per_page: usize,
    owner_user_id: u64,
    expires_at: u64,
) -> (r: HelpOutcome)
    ensures
        ({
            let cs = cmd_views(commands@);
            let argv = match arg1 {
                Some(a) => Some(a@),
                None => None,
            };
            let category = spec_help_category(argv);
            let sorted = spec_sorted_catalog(cs, category);
            let page = match spec_help_parsed_page(argv) {
                Some(p) => p,
                None => 1,
            };
            let total = crate::page::spec_total_pages(sorted.len(), per_page as nat);
            match r {
                HelpOutcome::UnknownCategory { message } => {
                    &&& category matches Some(w) && !spec_has_category(cs, w) && message@
                        == "Unknown category: "@ + spec_display_category(w)
                        + "\nValid categories: "@ + spec_display_join(
                        dedup_categories(spec_sorted_catalog(cs, None)),
                    )
                },
                HelpOutcome::NoCommands { message } => {
                    &&& (category matches Some(w) ==> spec_has_category(cs, w))
                    &&& sorted.len() == 0
                    &&& message@ == (match category {
                        Some(w) => "No commands found in category: "@ + spec_display_category(w),
                        None =>
                            "No commands found at all. (This probably means something is broken)"@,
                    })
                },
                HelpOutcome::PageOutOfRange { message } => {
                    &&& (category matches Some(w) ==> spec_has_category(cs, w))
                    &&& sorted.len() > 0
                    &&& page > total
                    &&& message@ == "Page "@ + crate::numeral::dec_rep(page as nat)
                        + " does not exist. Available pages: 1-"@ + crate::numeral::dec_rep(total)
                        + "."@
                },
                HelpOutcome::Render { embed, nav, total_pages, pagination_command } => {
                    &&& (category matches Some(w) ==> spec_has_category(cs, w))
                    &&& sorted.len() > 0
                    &&& 1 <= page <= total
                    &&& total_pages as nat == total
                    &&& (nav@.len() == 0 <==> total <= 1)
                    &&& embed.title@ == "Available Commands"@
                    &&& embed.description@ == spec_grouped_help(
                        sorted.subrange(
                            crate::page::spec_page_window(
                                sorted.len(),
                                per_page as nat,
                                page as nat,
                            ).0 as int,
                            crate::page::spec_page_window(
                                sorted.len(),
                                per_page as nat,
                                page as nat,
                            ).1 as int,
                        ),
                    )
                    &&& embed.footer_text@ == crate::view::spec_footer_text(
                        page as nat,
                        total,
                        None,
                    )
                    &&& crate::view::nav_views(nav@) == crate::view::spec_nav_components(
                        pagination_command@,
                        page as nat,
                        total,
                        owner_user_id as nat,
                        expires_at as nat,
                    )
                    &&& pagination_command@ == (match category {
                        Some(w) => "help|"@ + w,
                        None => "help"@,
                    })
                },
            }
        }),
{
    let parsed_page = match arg1 {
        Some(raw) => {
            match crate::numeral::parse_usize(raw) {
                Some(p) => if p >= 1 {
                    Some(p)
                } else {
                    None
                },
                None => None,
            }
        },
        None => None,
    };
    let category: Option<&str> = match (arg1, parsed_page) {
        (Some(raw), None) => Some(raw),
        _ => None,
    };
    if let Some(wanted) = category {
        if !category_known(commands, wanted) {
            let mut message = String::from_str("Unknown category: ");
            message.append(display_category(wanted).as_str());
            message.append("\nValid categories: ");
            let ghost head = message@;
            let categories = known_categories(commands);
            let ghost cats = crate::strutil::views_of(categories@);
            let m = categories.len();
            let mut k: usize = 0;
            proof {
                assert(cats.take(0) =~= Seq::<Seq<char>>::empty());
            }
            while k < m
                invariant
                    0 <= k <= m,
                    m == categories@.len(),
                    cats == crate::strutil::views_of(categories@),
                    message@ =~= head + spec_display_join(cats.take(k as int)),
                decreases m - k,
            {
                if k > 0 {
                    message.append(", ");
                }
                message.append(display_category(categories[k].as_str()).as_str());
                proof {
                    assert(cats.take(k as int + 1).drop_last() =~= cats.take(k as int));
                    assert(cats.take(k as int + 1).last() == categories@[k as int]@);
                }
                k += 1;
            }
            proof {
                assert(cats.take(m as int) =~= cats);
            }
            return HelpOutcome::UnknownCategory { message };
        }
    }
    let filtered = sorted_commands(commands, category);
    let ghost cat = match category {
        Some(w) => Some(w@),
        None => None,
    };
    let ghost sv = cmd_views(filtered@);
    if filtered.len() == 0 {
        let message = match category {
            Some(cat) => {
                let mut m = String::from_str("No commands found in category: ");
                m.append(display_category(cat).as_str());
                m
            },
            None => String::from_str(
                "No commands found at all. (This probably means something is broken)",
            ),
        };
        return HelpOutcome::NoCommands { message };
    }
    let requested_page = match parsed_page {
        Some(p) => p,
        None => 1,
    };
    let total = crate::page::total_pages(filtered.len(), per_page);
    if requested_page > total {
        let message = crate::messages::page_out_of_range_message(requested_page, total);
        return HelpOutcome::PageOutOfRange { message };
    }
    let window = crate::page::page_window(filtered.len(), per_page, requested_page);
    let mut page_slice: Vec<CommandMeta> = Vec::new();
    let mut i: usize = window.0;
    proof {
        assert(filtered@.subrange(window.0 as int, window.0 as int) =~= Seq::<
            CommandMeta,
        >::empty());
        assert(cmd_views(page_slice@) =~= Seq::<CommandMetaV>::empty());
    }
    while i < window.1
        invariant
            window.0 <= i <= window.1 <= filtered@.len(),
            page_slice@ =~= filtered@.subrange(window.0 as int, i as int),
        decreases window.1 - i,
    {
        page_slice.push(filtered[i]);
        proof {
            assert(filtered@.subrange(window.0 as int, i as int + 1) =~= filtered@.subrange(
                window.0 as int,
                i as int,
            ).push(filtered@[i as int]));
        }
        i += 1;
    }
    let description = grouped_help_description(&page_slice);
    let pagination_command = help_pagination_command(category);
    let title = help_title();
    let view = crate::view::build_paginated_view_with_footer_note_at(
        pagination_command.as_str(),
        title.as_str(),
        description,
        requested_page,
        total,
        owner_user_id,
        expires_at,
        None,
    );
    proof {
        assert(cmd_views(page_slice@) =~= sv.subrange(window.0 as int, window.1 as int));
        let q = crate::page::safe_per_page(per_page as nat);
        assert(total >= 1) by (nonlinear_arith)
            requires
                q >= 1,
                sv.len() >= 1,
                total == (sv.len() + q - 1) as int / (q as int),
        ;
        assert(crate::page::spec_clamp_page(requested_page as nat, total as nat)
            == requested_page as nat);
        assert(crate::page::at_least_one(total as nat) == total as nat);
    }
    HelpOutcome::Render { embed: view.0, nav: view.1, total_pages: total, pagination_command }
}

/// The fixed catalog of this bot's commands.
pub fn command_catalog() -> (r: Vec<CommandMeta>)
    ensures
        r@.len() == 15,
{
    let mut commands: Vec<CommandMeta> = Vec::new();
    commands.push(
        CommandMeta {
            name: "ping",
            desc: "Replies with Pong!",
            category: "utility",
            usage: "!ping",
        },
    );
    commands.push(
        CommandMeta {
            name: "universe",
            desc: "The answer to the universe.",
            category: "utility",
            usage: "!universe",
        },
    );
    commands.push(
        CommandMeta {
            name: "help",
            desc: "Lists out all available commands.",
            category: "utility",
            usage: "!help [page|category]",
        },
    );
    commands.push(
        CommandMeta {
            name: "usage",
            desc: "Show usage syntax for a specific command.",
            category: "utility",
            usage: "!usage <command>",
        },
    );
    commands.push(
        CommandMeta {
            name: "pagetest",
            desc: "Test embed pagination behavior.",
            category: "utility",
            usage: "!pagetest [page]",
        },
    );
    commands.push(
        CommandMeta {
            name: "ban",
            desc: "Ban a user from the server.",
            category: "moderation",
            usage: "!ban <user> [reason]",
        },
    );
    commands.push(
        CommandMeta {
            name: "unban",
            desc: "Unban a user by ID.",
            category: "moderation",
            usage: "!unban <user> [reason]",
        },
    );
    commands.push(
        CommandMeta {
            name: "kick",
            desc: "Kick a user from the server.",
            category: "moderation",
            usage: "!kick <user> [reason]",
        },
    );
    commands.push(
        CommandMeta {
            name: "timeout",
            desc: "Timeout a user for a duration (default: 10m).",
            category: "moderation",
            usage: "!timeout <user> [duration] [reason]",
        },
    );
    commands.push(
        CommandMeta {
            name: "untimeout",
            desc: "Remove a user's timeout.",
            category: "moderation",
            usage: "!untimeout <user> [reason]",
        },
    );
    commands.push(
        CommandMeta {
            name: "warn",
            desc: "Issue a warning to a user.",
            category: "moderation",
            usage: "!warn <user> [reason]",
        },
    );
    commands.push(
        CommandMeta {
            name: "warnings",
            desc: "Show warning history for a user in a time window.",
            category: "moderation",
            usage: "!warnings <user> [days|all]",
        },
    );
    commands.push(
        CommandMeta {
            name: "purge",
            desc: "Delete the latest messages in this channel.",
            category: "moderation",
            usage: "!purge <amount>",
        },
    );
    commands.push(
        CommandMeta {
            name: "permissions",
            desc: "Display your server permissions.",
            category: "moderation",
            usage: "!permissions [page]",
        },
    );
    commands.push(
        CommandMeta {
            name: "terminate",
            desc: "Ban a user and purge their messages (optionally by period and reason).",
            category: "moderation",
            usage: "!terminate <user> [period] [reason]",
        },
    );
    commands
}

} // verus!
