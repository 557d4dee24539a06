//! The profile persistence format.
//!
//! Profiles persist as a structured, human-readable text: a bracketed list,
//! one record per line, each record carrying the name (quoted, with `"` and
//! `\` backslash-escaped) and the two strengths (decimal, in range). The
//! format is fixed down to the character: [`spec_save`] defines the one text
//! a profile list serializes to, [`spec_load`] defines which texts parse and
//! to what, and saving then loading reproduces the list field for field.
//! Reading and writing the file itself is platform work and stays outside
//! this crate; this module turns values into text and text into values.

use vstd::prelude::*;
use vstd::string::{StrSliceExecFns, StringExecFns};

use crate::operators::{profiles_of, profiles_wf, Operator, Profile};
use crate::state::MAX_STRENGTH;

verus! {

/// A text failed to parse as a profile list.
#[derive(Clone, Copy, PartialEq, Eq, Structural, Debug)]
pub struct ParseError;

// ---------------------------------------------------------------------------
// The format, as specification: serialization
// ---------------------------------------------------------------------------

/// Opens the list: bracket, then one record per line.
pub open spec fn lit_open() -> Seq<char> {
    "[\n"@
}

/// Opens a record and its name field, up to the name's opening quote.
pub open spec fn lit_name_key() -> Seq<char> {
    "  {\"name\": \""@
}

/// Closes the name's quote and names the default strength field.
pub open spec fn lit_default_key() -> Seq<char> {
    "\", \"default_strength\": "@
}

/// Names the current strength field.
pub open spec fn lit_current_key() -> Seq<char> {
    ", \"current_strength\": "@
}

/// Closes a record.
pub open spec fn lit_end() -> Seq<char> {
    "}"@
}

/// Separates two records.
pub open spec fn lit_sep() -> Seq<char> {
    ",\n"@
}

/// Closes the last record's line and the list.
pub open spec fn lit_close() -> Seq<char> {
    "\n]"@
}

/// The decimal digit character for `d` in `[0, 9]`.
pub open spec fn digit_char(d: int) -> char {
    if d == 0 {
        '0'
    } else if d == 1 {
        '1'
    } else if d == 2 {
        '2'
    } else if d == 3 {
        '3'
    } else if d == 4 {
        '4'
    } else if d == 5 {
        '5'
    } else if d == 6 {
        '6'
    } else if d == 7 {
        '7'
    } else if d == 8 {
        '8'
    } else {
        '9'
    }
}

/// How a strength in `[0, MAX_STRENGTH]` prints: one digit below ten, two
/// digits from ten on, no leading zero.
pub open spec fn ser_num(n: int) -> Seq<char> {
    if n < 10 {
        seq![digit_char(n)]
    } else {
        seq![digit_char(n / 10), digit_char(n % 10)]
    }
}

/// How one name character prints: `"` and `\` get a backslash in front,
/// every other character stands for itself.
pub open spec fn esc_char(c: char) -> Seq<char> {
    if c == '"' || c == '\\' {
        seq!['\\', c]
    } else {
        seq![c]
    }
}

/// How a whole name prints between its quotes.
pub open spec fn esc(name: Seq<char>) -> Seq<char>
    decreases name.len(),
{
    if name.len() == 0 {
        Seq::empty()
    } else {
        esc_char(name[0]) + esc(name.skip(1))
    }
}

/// How one profile record prints.
pub open spec fn ser_op(p: Profile) -> Seq<char> {
    lit_name_key() + esc(p.name) + lit_default_key() + ser_num(p.default_strength)
        + lit_current_key() + ser_num(p.current_strength) + lit_end()
}

/// How a non-empty run of records prints: records separated by [`lit_sep`],
/// the last one followed by [`lit_close`].
pub open spec fn ser_items(ps: Seq<Profile>) -> Seq<char>
    decreases ps.len(),
{
    if ps.len() == 0 {
        Seq::empty()
    } else if ps.len() == 1 {
        ser_op(ps[0]) + lit_close()
    } else {
        ser_op(ps[0]) + lit_sep() + ser_items(ps.skip(1))
    }
}

/// The one text a profile list serializes to.
pub open spec fn spec_save(ps: Seq<Profile>) -> Seq<char> {
    if ps.len() == 0 {
        lit_open() + seq![']']
    } else {
        lit_open() + ser_items(ps)
    }
}

// ---------------------------------------------------------------------------
// The format, as specification: parsing
// ---------------------------------------------------------------------------

/// Consumes `lit` from the front of `s`, yielding the rest.
pub open spec fn match_lit(s: Seq<char>, lit: Seq<char>) -> Option<Seq<char>> {
    if lit.len() <= s.len() && s.take(lit.len() as int) == lit {
        Some(s.skip(lit.len() as int))
    } else {
        None
    }
}

/// Reads name characters up to, but not past, the closing quote, undoing
/// the backslash escapes; `acc` holds what was read so far.
pub open spec fn parse_string_body(s: Seq<char>, acc: Seq<char>) -> Option<(Seq<char>, Seq<char>)>
    decreases s.len(),
{
    if s.len() == 0 {
        None
    } else if s[0] == '"' {
        Some((acc, s))
    } else if s[0] == '\\' {
        if s.len() >= 2 {
            parse_string_body(s.skip(2), acc.push(s[1]))
        } else {
            None
        }
    } else {
        parse_string_body(s.skip(1), acc.push(s[0]))
    }
}

/// The value of a digit character, or a negative number for any other
/// character.
pub open spec fn digit_val(c: char) -> int {
    if c == '0' {
        0
    } else if c == '1' {
        1
    } else if c == '2' {
        2
    } else if c == '3' {
        3
    } else if c == '4' {
        4
    } else if c == '5' {
        5
    } else if c == '6' {
        6
    } else if c == '7' {
        7
    } else if c == '8' {
        8
    } else if c == '9' {
        9
    } else {
        -1
    }
}

/// Reads a one- or two-digit decimal number from the front of `s`.
pub open spec fn parse_num(s: Seq<char>) -> Option<(int, Seq<char>)> {
    if s.len() >= 1 && digit_val(s[0]) >= 0 {
        if s.len() >= 2 && digit_val(s[1]) >= 0 {
            Some((10 * digit_val(s[0]) + digit_val(s[1]), s.skip(2)))
        } else {
            Some((digit_val(s[0]), s.skip(1)))
        }
    } else {
        None
    }
}

/// Reads one profile record from the front of `s`. Both strengths must lie
/// within `[0, MAX_STRENGTH]` for the record to parse.
pub open spec fn parse_op(s: Seq<char>) -> Option<(Profile, Seq<char>)> {
    match match_lit(s, lit_name_key()) {
        None => None,
        Some(s1) => match parse_string_body(s1, Seq::empty()) {
            None => None,
            Some((name, s2)) => match match_lit(s2, lit_default_key()) {
                None => None,
                Some(s3) => match parse_num(s3) {
                    None => None,
                    Some((d, s4)) => match match_lit(s4, lit_current_key()) {
                        None => None,
                        Some(s5) => match parse_num(s5) {
                            None => None,
                            Some((c, s6)) => match match_lit(s6, lit_end()) {
                                None => None,
                                Some(s7) => if 0 <= d <= MAX_STRENGTH && 0 <= c <= MAX_STRENGTH {
                                    Some(
                                        (
                                            Profile {
                                                name,
                                                default_strength: d,
                                                current_strength: c,
                                            },
                                            s7,
                                        ),
                                    )
                                } else {
                                    None
                                },
                            },
                        },
                    },
                },
            },
        },
    }
}

/// Reads a non-empty run of records from the front of `s`, through the
/// closing bracket. `fuel` bounds the recursion; any fuel of at least
/// `s.len()` gives the same answer, since every record consumes text.
pub open spec fn parse_items(s: Seq<char>, fuel: nat) -> Option<(Seq<Profile>, Seq<char>)>
    decreases fuel,
{
    if fuel == 0 {
        None
    } else {
        match parse_op(s) {
            None => None,
            Some((p, r)) => match match_lit(r, lit_sep()) {
                Some(r2) => match parse_items(r2, (fuel - 1) as nat) {
                    None => None,
                    Some((ps, r3)) => Some((seq![p] + ps, r3)),
                },
                None => match match_lit(r, lit_close()) {
                    Some(r2) => Some((seq![p], r2)),
                    None => None,
                },
            },
        }
    }
}

/// [`parse_items`] at its canonical fuel.
pub open spec fn parse_items_all(s: Seq<char>) -> Option<(Seq<Profile>, Seq<char>)> {
    parse_items(s, s.len() as nat)
}

/// Which texts parse as a profile list, and to what: the whole text must be
/// consumed.
pub open spec fn spec_load(s: Seq<char>) -> Option<Seq<Profile>> {
    match match_lit(s, lit_open()) {
        None => None,
        Some(r) => if r.len() > 0 && r[0] == ']' {
            if r.len() == 1 {
                Some(Seq::empty())
            } else {
                None
            }
        } else {
            match parse_items_all(r) {
                Some((ps, rest)) => if rest.len() == 0 {
                    Some(ps)
                } else {
                    None
                },
                None => None,
            }
        },
    }
}

// ---------------------------------------------------------------------------
// Serialization, executable
// ---------------------------------------------------------------------------

/// Relies on `String::push`: appends exactly the given character.
#[verifier::external_body]
fn push_char(out: &mut String, c: char)
    ensures
        final(out)@ == old(out)@.push(c),
{
    out.push(c);
}

/// The decimal digit character for `d` in `[0, 9]`.
fn digit_char_exec(d: i32) -> (c: char)
    requires
        0 <= d <= 9,
    ensures
        c == digit_char(d as int),
{
    match d {
        0 => '0',
        1 => '1',
        2 => '2',
        3 => '3',
        4 => '4',
        5 => '5',
        6 => '6',
        7 => '7',
        8 => '8',
        _ => '9',
    }
}

/// Appends the decimal print of a strength.
fn push_num(out: &mut String, n: i32)
    requires
        0 <= n <= MAX_STRENGTH,
    ensures
        final(out)@ == old(out)@ + ser_num(n as int),
{
    if n < 10 {
        push_char(out, digit_char_exec(n));
        proof {
            assert(out@ =~= old(out)@ + ser_num(n as int));
        }
    } else {
        push_char(out, digit_char_exec(n / 10));
        push_char(out, digit_char_exec(n % 10));
        proof {
            assert(out@ =~= old(out)@ + ser_num(n as int));
        }
    }
}

/// [`esc`] grows one character at a time from the right.
proof fn lemma_esc_snoc(s: Seq<char>, c: char)
    ensures
        esc(s.push(c)) == esc(s) + esc_char(c),
    decreases s.len(),
{
    if s.len() == 0 {
        assert(s.push(c)[0] == c);
        assert(s.push(c).skip(1) =~= Seq::<char>::empty());
        assert(esc(s.push(c)) == esc_char(c) + esc(Seq::<char>::empty()));
        assert(esc(s.push(c)) =~= esc_char(c));
        assert(esc(s) + esc_char(c) =~= esc_char(c));
    } else {
        assert(s.push(c).skip(1) =~= s.skip(1).push(c));
        lemma_esc_snoc(s.skip(1), c);
        assert(esc(s.push(c)) =~= esc(s) + esc_char(c));
    }
}

/// Appends the escaped print of a name.
fn push_escaped(out: &mut String, name: &String)
    ensures
        final(out)@ == old(out)@ + esc(name@),
{
    let n = name.as_str().unicode_len();
    let mut i: usize = 0;
    while i < n
        invariant
            n == name@.len(),
            0 <= i <= n,
            out@ == old(out)@ + esc(name@.take(i as int)),
        decreases n - i,
    {
        let c = name.as_str().get_char(i);
        let ghost prefix = name@.take(i as int);
        if c == '"' || c == '\\' {
            push_char(out, '\\');
            push_char(out, c);
        } else {
            push_char(out, c);
        }
        proof {
            assert(name@.take(i as int + 1) =~= prefix.push(c));
            lemma_esc_snoc(prefix, c);
            assert(out@ =~= old(out)@ + esc(name@.take(i as int + 1)));
        }
        i = i + 1;
    }
    proof {
        assert(name@.take(n as int) =~= name@);
    }
}

/// Appends the print of one profile record.
fn push_operator(out: &mut String, op: &Operator)
    requires
        op@.wf(),
    ensures
        final(out)@ == old(out)@ + ser_op(op@),
{
    out.append("  {\"name\": \"");
    push_escaped(out, &op.name);
    out.append("\", \"default_strength\": ");
    push_num(out, op.default_strength);
    out.append(", \"current_strength\": ");
    push_num(out, op.current_strength);
    out.append("}");
    proof {
        assert(out@ =~= old(out)@ + ser_op(op@));
    }
}

/// Serializes a profile list to its persisted text.
///
/// The result is exactly [`spec_save`] of the list's profiles; loading it
/// back yields the same profiles, field for field.
pub fn save_operators(operators: &Vec<Operator>) -> (s: String)
    requires
        profiles_wf(profiles_of(operators@)),
    ensures
        s@ == spec_save(profiles_of(operators@)),
{
    let ghost ps = profiles_of(operators@);
    let mut out = String::new();
    out.append("[\n");
    proof {
        assert(out@ =~= lit_open());
    }
    let n = operators.len();
    if n == 0 {
        push_char(&mut out, ']');
        proof {
            assert(out@ =~= spec_save(ps));
        }
        return out;
    }
    proof {
        assert(ps.skip(0) =~= ps);
    }
    let mut i: usize = 0;
    while i < n
        invariant
            n == operators@.len(),
            0 < n,
            0 <= i <= n,
            ps == profiles_of(operators@),
            profiles_wf(ps),
            out@ + ser_items(ps.skip(i as int)) == lit_open() + ser_items(ps),
        decreases n - i,
    {
        let ghost rest = ps.skip(i as int);
        proof {
            assert(operators@[i as int]@ == ps[i as int]);
            assert(ps[i as int].wf());
            assert(rest[0] == ps[i as int]);
        }
        push_operator(&mut out, &operators[i]);
        if i + 1 < n {
            out.append(",\n");
            proof {
                assert(rest.skip(1) =~= ps.skip(i as int + 1));
                assert(ser_items(rest) == ser_op(rest[0]) + lit_sep() + ser_items(rest.skip(1)));
                assert(out@ + ser_items(ps.skip(i as int + 1)) =~= lit_open() + ser_items(ps));
            }
        } else {
            out.append("\n]");
            proof {
                assert(rest.len() == 1);
                assert(ser_items(rest) == ser_op(rest[0]) + lit_close());
                assert(ps.skip(i as int + 1) =~= Seq::<Profile>::empty());
                assert(out@ + ser_items(ps.skip(i as int + 1)) =~= lit_open() + ser_items(ps));
            }
        }
        i = i + 1;
    }
    proof {
        assert(ps.skip(n as int) =~= Seq::<Profile>::empty());
        assert(out@ =~= out@ + ser_items(ps.skip(n as int)));
        assert(out@ == lit_open() + ser_items(ps));
        assert(spec_save(ps) == lit_open() + ser_items(ps));
    }
    out
}

// ---------------------------------------------------------------------------
// Parsing, executable
// ---------------------------------------------------------------------------

/// The value of a digit character, or a negative number for any other
/// character.
fn digit_val_exec(c: char) -> (d: i32)
    ensures
        d == digit_val(c),
{
    match c {
        '0' => 0,
        '1' => 1,
        '2' => 2,
        '3' => 3,
        '4' => 4,
        '5' => 5,
        '6' => 6,
        '7' => 7,
        '8' => 8,
        '9' => 9,
        _ => -1,
    }
}

/// Consumes `lit` at position `i` of `s`, yielding the position after it.
fn expect_lit(s: &str, i: usize, lit: &str) -> (r: Option<usize>)
    requires
        i <= s@.len(),
    ensures
        match r {
            Some(j) => {
                &&& match_lit(s@.skip(i as int), lit@) == Some(s@.skip(j as int))
                &&& i <= j <= s@.len()
                &&& j == i + lit@.len()
            },
            None => match_lit(s@.skip(i as int), lit@) is None,
        },
{
    let n = s.unicode_len();
    let m = lit.unicode_len();
    if m > n - i {
        proof {
            assert(s@.skip(i as int).len() == n - i);
        }
        return None;
    }
    let mut k: usize = 0;
    while k < m
        invariant
            n == s@.len(),
            m == lit@.len(),
            i + m <= n,
            0 <= k <= m,
            forall|t: int| 0 <= t < k ==> s@[i + t] == lit@[t],
        decreases m - k,
    {
        let c1 = s.get_char(i + k);
        let c2 = lit.get_char(k);
        if c1 != c2 {
            proof {
                let sk = s@.skip(i as int);
                assert(sk.take(m as int)[k as int] == s@[i + k]);
                assert(sk.take(m as int) != lit@);
            }
            return None;
        }
        k = k + 1;
    }
    proof {
        let sk = s@.skip(i as int);
        assert(sk.take(m as int) =~= lit@);
        assert(sk.skip(m as int) =~= s@.skip(i as int + m as int));
    }
    Some(i + m)
}

/// Reads a one- or two-digit decimal number at position `i` of `s`.
fn parse_num_at(s: &str, i: usize) -> (r: Option<(i32, usize)>)
    requires
        i <= s@.len(),
    ensures
        match r {
            Some(p) => {
                &&& parse_num(s@.skip(i as int)) == Some((p.0 as int, s@.skip(p.1 as int)))
                &&& i < p.1 <= s@.len()
                &&& 0 <= p.0 <= 99
            },
            None => parse_num(s@.skip(i as int)) is None,
        },
{
    let n = s.unicode_len();
    if i >= n {
        return None;
    }
    let d0 = digit_val_exec(s.get_char(i));
    if d0 < 0 {
        return None;
    }
    if i + 1 < n {
        let d1 = digit_val_exec(s.get_char(i + 1));
        if d1 >= 0 {
            proof {
                assert(s@.skip(i as int).skip(2) =~= s@.skip(i as int + 2));
            }
            return Some((10 * d0 + d1, i + 2));
        }
    }
    proof {
        assert(s@.skip(i as int).skip(1) =~= s@.skip(i as int + 1));
    }
    Some((d0, i + 1))
}

/// Reads a quoted name's characters at position `i` of `s`, up to but not
/// past the closing quote, undoing the backslash escapes.
fn parse_string_at(s: &str, i: usize) -> (r: Option<(String, usize)>)
    requires
        i <= s@.len(),
    ensures
        match r {
            Some(p) => {
                &&& parse_string_body(s@.skip(i as int), Seq::empty()) == Some(
                    (p.0@, s@.skip(p.1 as int)),
                )
                &&& i <= p.1 <= s@.len()
            },
            None => parse_string_body(s@.skip(i as int), Seq::empty()) is None,
        },
{
    let n = s.unicode_len();
    let mut acc = String::new();
    let mut j: usize = i;
    loop
        invariant
            n == s@.len(),
            i <= j <= n,
            parse_string_body(s@.skip(i as int), Seq::empty()) == parse_string_body(
                s@.skip(j as int),
                acc@,
            ),
        decreases n - j,
    {
        if j >= n {
            proof {
                assert(s@.skip(j as int).len() == 0);
            }
            return None;
        }
        let c = s.get_char(j);
        proof {
            assert(s@.skip(j as int)[0] == s@[j as int]);
        }
        if c == '"' {
            return Some((acc, j));
        } else if c == '\\' {
            if j + 1 >= n {
                return None;
            }
            let c2 = s.get_char(j + 1);
            push_char(&mut acc, c2);
            proof {
                assert(s@.skip(j as int)[1] == s@[j as int + 1]);
                assert(s@.skip(j as int).skip(2) =~= s@.skip(j as int + 2));
            }
            j = j + 2;
        } else {
            push_char(&mut acc, c);
            proof {
                assert(s@.skip(j as int).skip(1) =~= s@.skip(j as int + 1));
            }
            j = j + 1;
        }
    }
}

/// Reads one profile record at position `i` of `s`.
fn parse_operator_at(s: &str, i: usize) -> (r: Option<(Operator, usize)>)
    requires
        i <= s@.len(),
    ensures
        match r {
            Some(p) => {
                &&& parse_op(s@.skip(i as int)) == Some((p.0@, s@.skip(p.1 as int)))
                &&& i <= p.1 <= s@.len()
                &&& p.0@.wf()
            },
            None => parse_op(s@.skip(i as int)) is None,
        },
{
    let j1 = match expect_lit(s, i, "  {\"name\": \"") {
        Some(j) => j,
        None => {
            return None;
        },
    };
    let (name, j2) = match parse_string_at(s, j1) {
        Some(p) => p,
        None => {
            return None;
        },
    };
    let j3 = match expect_lit(s, j2, "\", \"default_strength\": ") {
        Some(j) => j,
        None => {
            return None;
        },
    };
    let (d, j4) = match parse_num_at(s, j3) {
        Some(p) => p,
        None => {
            return None;
        },
    };
    let j5 = match expect_lit(s, j4, ", \"current_strength\": ") {
        Some(j) => j,
        None => {
            return None;
        },
    };
    let (c, j6) = match parse_num_at(s, j5) {
        Some(p) => p,
        None => {
            return None;
        },
    };
    let j7 = match expect_lit(s, j6, "}") {
        Some(j) => j,
        None => {
            return None;
        },
    };
    if d > MAX_STRENGTH || c > MAX_STRENGTH {
        return None;
    }
    Some((Operator { name, default_strength: d, current_strength: c }, j7))
}

// ---------------------------------------------------------------------------
// Fuel does not matter once it covers the text
// ---------------------------------------------------------------------------

/// Reading a name consumes no text beyond `s`.
proof fn lemma_parse_string_body_mono(s: Seq<char>, acc: Seq<char>)
    ensures
        parse_string_body(s, acc) matches Some(p) ==> p.1.len() <= s.len(),
    decreases s.len(),
{
    if s.len() == 0 {
    } else if s[0] == '"' {
    } else if s[0] == '\\' {
        if s.len() >= 2 {
            lemma_parse_string_body_mono(s.skip(2), acc.push(s[1]));
        }
    } else {
        lemma_parse_string_body_mono(s.skip(1), acc.push(s[0]));
    }
}

/// Reading one record always consumes text.
proof fn lemma_parse_op_progress(s: Seq<char>)
    ensures
        parse_op(s) matches Some(p) ==> p.1.len() < s.len(),
{
    reveal_strlit("  {\"name\": \"");
    match match_lit(s, lit_name_key()) {
        None => {},
        Some(s1) => {
            lemma_parse_string_body_mono(s1, Seq::empty());
        },
    }
}

/// Any fuel that covers the text gives [`parse_items`] the same answer.
proof fn lemma_parse_items_fuel(s: Seq<char>, f1: nat, f2: nat)
    requires
        f1 >= s.len(),
        f2 >= s.len(),
    ensures
        parse_items(s, f1) == parse_items(s, f2),
    decreases s.len(),
{
    lemma_parse_op_progress(s);
    if s.len() == 0 {
        reveal_strlit("  {\"name\": \"");
        assert(lit_name_key().len() == 12);
        assert(parse_op(s) is None);
    } else {
        match parse_op(s) {
            None => {},
            Some((p, r)) => {
                match match_lit(r, lit_sep()) {
                    Some(r2) => {
                        assert(r2.len() <= r.len());
                        assert(r.len() < s.len());
                        lemma_parse_items_fuel(r2, (f1 - 1) as nat, r2.len() as nat);
                        lemma_parse_items_fuel(r2, (f2 - 1) as nat, r2.len() as nat);
                    },
                    None => {},
                }
            },
        }
    }
}

// ---------------------------------------------------------------------------
// Round trip: parsing undoes serialization
// ---------------------------------------------------------------------------

/// Consuming a literal off the text that starts with it yields the rest.
proof fn lemma_match_lit_exact(lit: Seq<char>, suf: Seq<char>)
    ensures
        match_lit(lit + suf, lit) == Some(suf),
{
    let s = lit + suf;
    assert(s.take(lit.len() as int) =~= lit);
    assert(s.skip(lit.len() as int) =~= suf);
}

/// Reading an escaped name off the text recovers the name, up to the
/// closing quote that follows it.
proof fn lemma_parse_string_body_ser(name: Seq<char>, acc: Seq<char>, suf: Seq<char>)
    requires
        suf.len() > 0,
        suf[0] == '"',
    ensures
        parse_string_body(esc(name) + suf, acc) == Some((acc + name, suf)),
    decreases name.len(),
{
    let s = esc(name) + suf;
    if name.len() == 0 {
        assert(esc(name) =~= Seq::<char>::empty());
        assert(s =~= suf);
        assert(acc + name =~= acc);
    } else {
        let c = name[0];
        let rest = name.skip(1);
        assert(esc(name) == esc_char(c) + esc(rest));
        assert(s =~= esc_char(c) + (esc(rest) + suf));
        if c == '"' || c == '\\' {
            assert(s[0] == '\\');
            assert(s[1] == c);
            assert(s.skip(2) =~= esc(rest) + suf);
            lemma_parse_string_body_ser(rest, acc.push(c), suf);
            assert(acc.push(c) + rest =~= acc + name);
        } else {
            assert(s[0] == c);
            assert(s.skip(1) =~= esc(rest) + suf);
            lemma_parse_string_body_ser(rest, acc.push(c), suf);
            assert(acc.push(c) + rest =~= acc + name);
        }
    }
}

/// Reading a number off the text that starts with its print recovers it,
/// provided no digit follows the print.
proof fn lemma_parse_num_ser(v: int, suf: Seq<char>)
    requires
        0 <= v <= MAX_STRENGTH,
        suf.len() > 0,
        digit_val(suf[0]) < 0,
    ensures
        parse_num(ser_num(v) + suf) == Some((v, suf)),
{
    let s = ser_num(v) + suf;
    if v < 10 {
        assert(s[0] == digit_char(v));
        assert(digit_val(digit_char(v)) == v);
        assert(s[1] == suf[0]);
        assert(s.skip(1) =~= suf);
    } else {
        assert(s[0] == digit_char(v / 10));
        assert(s[1] == digit_char(v % 10));
        assert(digit_val(digit_char(v / 10)) == v / 10);
        assert(digit_val(digit_char(v % 10)) == v % 10);
        assert(10 * (v / 10) + v % 10 == v);
        assert(s.skip(2) =~= suf);
    }
}

/// Reading one record off the text that starts with its print recovers it.
proof fn lemma_parse_op_ser(p: Profile, suf: Seq<char>)
    requires
        p.wf(),
    ensures
        parse_op(ser_op(p) + suf) == Some((p, suf)),
{
    reveal_strlit("\", \"default_strength\": ");
    reveal_strlit(", \"current_strength\": ");
    reveal_strlit("}");
    let name = p.name;
    let d = p.default_strength;
    let c = p.current_strength;
    let s = ser_op(p) + suf;

    let rest1 = esc(name) + lit_default_key() + ser_num(d) + lit_current_key() + ser_num(c)
        + lit_end() + suf;
    assert(s =~= lit_name_key() + rest1);
    lemma_match_lit_exact(lit_name_key(), rest1);
    assert(match_lit(s, lit_name_key()) == Some(rest1));

    let suf1 = lit_default_key() + ser_num(d) + lit_current_key() + ser_num(c) + lit_end() + suf;
    assert(rest1 =~= esc(name) + suf1);
    assert(suf1[0] == '"');
    lemma_parse_string_body_ser(name, Seq::empty(), suf1);
    assert(Seq::<char>::empty() + name =~= name);
    assert(parse_string_body(rest1, Seq::empty()) == Some((name, suf1)));

    let rest2 = ser_num(d) + lit_current_key() + ser_num(c) + lit_end() + suf;
    assert(suf1 =~= lit_default_key() + rest2);
    lemma_match_lit_exact(lit_default_key(), rest2);
    assert(match_lit(suf1, lit_default_key()) == Some(rest2));

    let suf2 = lit_current_key() + ser_num(c) + lit_end() + suf;
    assert(rest2 =~= ser_num(d) + suf2);
    assert(suf2[0] == ',');
    lemma_parse_num_ser(d, suf2);
    assert(parse_num(rest2) == Some((d, suf2)));

    let rest3 = ser_num(c) + lit_end() + suf;
    assert(suf2 =~= lit_current_key() + rest3);
    lemma_match_lit_exact(lit_current_key(), rest3);
    assert(match_lit(suf2, lit_current_key()) == Some(rest3));

    let suf3 = lit_end() + suf;
    assert(rest3 =~= ser_num(c) + suf3);
    assert(suf3[0] == '}');
    lemma_parse_num_ser(c, suf3);
    assert(parse_num(rest3) == Some((c, suf3)));

    lemma_match_lit_exact(lit_end(), suf);
    assert(match_lit(suf3, lit_end()) == Some(suf));

    assert(Profile { name: p.name, default_strength: p.default_strength, current_strength: p.current_strength } == p);
}

/// The print of a run of records is at least as long as the run.
proof fn lemma_ser_items_len(ps: Seq<Profile>)
    ensures
        ser_items(ps).len() >= ps.len(),
    decreases ps.len(),
{
    reveal_strlit("  {\"name\": \"");
    if ps.len() == 0 {
    } else if ps.len() == 1 {
        assert(ser_op(ps[0]).len() >= 12);
    } else {
        lemma_ser_items_len(ps.skip(1));
        assert(ser_op(ps[0]).len() >= 12);
    }
}

/// Reading records off the print of a non-empty run recovers the run and
/// consumes the whole text.
proof fn lemma_parse_items_ser(ps: Seq<Profile>, fuel: nat)
    requires
        ps.len() >= 1,
        profiles_wf(ps),
        fuel >= ps.len(),
    ensures
        parse_items(ser_items(ps), fuel) == Some((ps, Seq::<char>::empty())),
    decreases ps.len(),
{
    reveal_strlit("\n]");
    reveal_strlit(",\n");
    let s = ser_items(ps);
    let p = ps[0];
    assert(p.wf());
    if ps.len() == 1 {
        assert(s == ser_op(p) + lit_close());
        lemma_parse_op_ser(p, lit_close());
        assert(parse_op(s) == Some((p, lit_close())));
        assert(lit_close().take(lit_sep().len() as int) != lit_sep()) by {
            assert(lit_close().take(2)[0] == '\n');
        }
        assert(match_lit(lit_close(), lit_sep()) is None);
        assert(lit_close() + Seq::<char>::empty() =~= lit_close());
        lemma_match_lit_exact(lit_close(), Seq::empty());
        assert(match_lit(lit_close(), lit_close()) == Some(Seq::<char>::empty()));
        assert(seq![p] =~= ps);
    } else {
        let tail = ser_items(ps.skip(1));
        assert(s =~= ser_op(p) + (lit_sep() + tail));
        lemma_parse_op_ser(p, lit_sep() + tail);
        assert(parse_op(s) == Some((p, lit_sep() + tail)));
        lemma_match_lit_exact(lit_sep(), tail);
        assert(profiles_wf(ps.skip(1))) by {
            assert forall|k: int| 0 <= k < ps.skip(1).len() implies (#[trigger] ps.skip(1)[k]).wf() by {
                assert(ps.skip(1)[k] == ps[k + 1]);
            }
        }
        lemma_parse_items_ser(ps.skip(1), (fuel - 1) as nat);
        assert(seq![p] + ps.skip(1) =~= ps);
    }
}

/// Saving a valid profile list and loading the text back yields exactly the
/// same profiles, field for field, whatever the names hold.
pub proof fn lemma_save_then_load(ps: Seq<Profile>)
    requires
        profiles_wf(ps),
    ensures
        spec_load(spec_save(ps)) == Some(ps),
{
    reveal_strlit("[\n");
    let s = spec_save(ps);
    if ps.len() == 0 {
        lemma_match_lit_exact(lit_open(), seq![']']);
        assert(match_lit(s, lit_open()) == Some(seq![']']));
    } else {
        let r = ser_items(ps);
        lemma_match_lit_exact(lit_open(), r);
        assert(match_lit(s, lit_open()) == Some(r));
        reveal_strlit("  {\"name\": \"");
        assert(r[0] == ' ');
        lemma_ser_items_len(ps);
        lemma_parse_items_ser(ps, r.len() as nat);
        assert(parse_items_all(r) == Some((ps, Seq::<char>::empty())));
    }
}

// ---------------------------------------------------------------------------
// Loading
// ---------------------------------------------------------------------------

/// Parses a profile list from its persisted text.
///
/// Succeeds exactly on the texts that [`spec_load`] accepts, and then
/// returns exactly the profiles that [`spec_load`] reads; any other text is
/// a [`ParseError`].
pub fn load_operators(s: &str) -> (r: Result<Vec<Operator>, ParseError>)
    ensures
        match r {
            Ok(ops) => {
                &&& spec_load(s@) == Some(profiles_of(ops@))
                &&& profiles_wf(profiles_of(ops@))
            },
            Err(_) => spec_load(s@) is None,
        },
{
    let n = s.unicode_len();
    let start = match expect_lit(s, 0, "[\n") {
        Some(j) => j,
        None => {
            proof {
                assert(s@.skip(0) =~= s@);
            }
            return Err(ParseError);
        },
    };
    proof {
        assert(s@.skip(0) =~= s@);
    }
    if start < n && s.get_char(start) == ']' {
        if start + 1 == n {
            let ops: Vec<Operator> = Vec::new();
            proof {
                assert(s@.skip(start as int).len() == 1);
                assert(s@.skip(start as int)[0] == ']');
                assert(profiles_of(ops@) =~= Seq::<Profile>::empty());
            }
            return Ok(ops);
        } else {
            proof {
                assert(s@.skip(start as int).len() > 1);
                assert(s@.skip(start as int)[0] == ']');
            }
            return Err(ParseError);
        }
    }
    let mut ops: Vec<Operator> = Vec::new();
    let mut pos: usize = start;
    proof {
        assert forall|ps: Seq<Profile>| Seq::<Profile>::empty() + ps == ps by {
            assert(Seq::<Profile>::empty() + ps =~= ps);
        }
        assert(profiles_of(ops@) =~= Seq::<Profile>::empty());
    }
    loop
        invariant
            n == s@.len(),
            start <= pos <= n,
            profiles_wf(profiles_of(ops@)),
            match parse_items_all(s@.skip(pos as int)) {
                Some(pr) => parse_items_all(s@.skip(start as int)) == Some(
                    (profiles_of(ops@) + pr.0, pr.1),
                ),
                None => parse_items_all(s@.skip(start as int)) is None,
            },
            match_lit(s@, lit_open()) == Some(s@.skip(start as int)),
            !(s@.skip(start as int).len() > 0 && s@.skip(start as int)[0] == ']'),
        decreases n - pos,
    {
        let ghost t = s@.skip(pos as int);
        let (op, j) = match parse_operator_at(s, pos) {
            Some(p) => p,
            None => {
                proof {
                    assert(parse_items_all(t) is None);
                }
                return Err(ParseError);
            },
        };
        proof {
            lemma_parse_op_progress(t);
            assert(s@.skip(j as int).len() < t.len());
            assert(pos < j);
        }
        let ghost prev = profiles_of(ops@);
        ops.push(op);
        proof {
            assert(profiles_of(ops@) =~= prev.push(op@));
            assert(op@.wf());
        }
        match expect_lit(s, j, ",\n") {
            Some(k) => {
                proof {
                    reveal_strlit(",\n");
                    assert(j < k <= n);
                    let r2 = s@.skip(k as int);
                    assert(r2.len() <= t.len() - 1);
                    lemma_parse_items_fuel(r2, (t.len() - 1) as nat, r2.len() as nat);
                    assert(parse_items(t, t.len() as nat) == (match parse_items_all(r2) {
                        Some(pr) => Some((seq![op@] + pr.0, pr.1)),
                        None => None::<(Seq<Profile>, Seq<char>)>,
                    }));
                    assert forall|ps2: Seq<Profile>| prev + (seq![op@] + ps2) == prev.push(op@)
                        + ps2 by {
                        assert(prev + (seq![op@] + ps2) =~= prev.push(op@) + ps2);
                    }
                }
                pos = k;
            },
            None => {
                match expect_lit(s, j, "\n]") {
                    Some(k) => {
                        if k == n {
                            proof {
                                assert(parse_items_all(t) == Some(
                                    (seq![op@], s@.skip(n as int)),
                                ));
                                assert(s@.skip(n as int).len() == 0);
                                assert(prev + seq![op@] =~= profiles_of(ops@));
                            }
                            return Ok(ops);
                        } else {
                            proof {
                                assert(parse_items_all(t) == Some(
                                    (seq![op@], s@.skip(k as int)),
                                ));
                                assert(s@.skip(k as int).len() > 0);
                            }
                            return Err(ParseError);
                        }
                    },
                    None => {
                        proof {
                            assert(parse_items_all(t) is None);
                        }
                        return Err(ParseError);
                    },
                }
            },
        }
    }
}

} // verus!
