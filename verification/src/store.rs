//! The install-state file format.
//!
//! The store is persisted as one JSON document: an object with a
//! `products` member mapping each product id to its record, e.g.
//! `{"products":{"p":{"name":"P","description":"","version":null,
//! "execute_working_directory":null,"main_executable":null,
//! "use_prerelease":false}}}`. Rendering is canonical (no whitespace,
//! members in a fixed order, control characters escaped as `\u00XX`);
//! parsing is lenient: whitespace between tokens, record members in any
//! order, absent members defaulted, unknown members with primitive values
//! (string, number, `null`, `true`, `false`) skipped. A document whose
//! member value nests an object or array, or that names the same product
//! twice, is refused — refusal is the caller's unrecoverable-corruption
//! signal. Reading and writing the file itself is the caller's I/O.

use vstd::prelude::*;

use crate::install::{Install, InstalledProduct, InstalledProductView};
use crate::strutil;

verus! {

// ---------------------------------------------------------------------------
// Rendering: escapes
// ---------------------------------------------------------------------------

/// The hexadecimal digit character for `n` (< 16).
pub open spec fn hex_digit(n: int) -> char {
    if n == 0 {
        '0'
    } else if n == 1 {
        '1'
    } else if n == 2 {
        '2'
    } else if n == 3 {
        '3'
    } else if n == 4 {
        '4'
    } else if n == 5 {
        '5'
    } else if n == 6 {
        '6'
    } else if n == 7 {
        '7'
    } else if n == 8 {
        '8'
    } else if n == 9 {
        '9'
    } else if n == 10 {
        'a'
    } else if n == 11 {
        'b'
    } else if n == 12 {
        'c'
    } else if n == 13 {
        'd'
    } else if n == 14 {
        'e'
    } else {
        'f'
    }
}

/// How one character is written inside a JSON string: quote and backslash
/// escaped, control characters as `\u00XX`, everything else as itself.
pub open spec fn escape_char(c: char) -> Seq<char> {
    if c == '"' {
        seq!['\\', '"']
    } else if c == '\\' {
        seq!['\\', '\\']
    } else if (c as u32) < 32 {
        seq!['\\', 'u', '0', '0', hex_digit(c as u32 as int / 16), hex_digit(c as u32 as int % 16)]
    } else {
        seq![c]
    }
}

pub open spec fn escape_str(s: Seq<char>) -> Seq<char>
    decreases s.len(),
{
    if s.len() == 0 {
        Seq::empty()
    } else {
        escape_char(s[0]) + escape_str(s.drop_first())
    }
}

proof fn lemma_escape_snoc(s: Seq<char>, c: char)
    ensures
        escape_str(s.push(c)) == escape_str(s) + escape_char(c),
    decreases s.len(),
{
    if s.len() == 0 {
        assert(s.push(c).drop_first() =~= Seq::<char>::empty());
        assert(s.push(c)[0] == c);
        assert(escape_str(Seq::<char>::empty()) == Seq::<char>::empty());
        assert(escape_str(s.push(c)) == escape_char(c) + Seq::<char>::empty());
        assert(escape_str(s.push(c)) =~= escape_str(s) + escape_char(c));
    } else {
        let a = escape_char(s[0]);
        let b = escape_str(s.drop_first());
        let d = escape_char(c);
        assert(s.push(c)[0] == s[0]);
        assert(s.push(c).drop_first() =~= s.drop_first().push(c));
        lemma_escape_snoc(s.drop_first(), c);
        assert(escape_str(s.push(c)) == a + (b + d));
        assert(a + (b + d) =~= (a + b) + d);
    }
}

fn hex_digit_exec(n: u32) -> (c: char)
    requires
        n < 16,
    ensures
        c == hex_digit(n as int),
{
    match n {
        0 => '0',
        1 => '1',
        2 => '2',
        3 => '3',
        4 => '4',
        5 => '5',
        6 => '6',
        7 => '7',
        8 => '8',
        9 => '9',
        10 => 'a',
        11 => 'b',
        12 => 'c',
        13 => 'd',
        14 => 'e',
        _ => 'f',
    }
}

/// Append the escaped form of `s` to `out`.
fn push_escaped(out: &mut Vec<char>, s: &String)
    ensures
        final(out)@ == old(out)@ + escape_str(s@),
{
    let ghost base = old(out)@;
    let n = vstd::string::StrSliceExecFns::unicode_len(s.as_str());
    let mut i: usize = 0;
    proof {
        assert(s@.take(0) =~= Seq::<char>::empty());
        assert(out@ =~= base + escape_str(s@.take(0)));
    }
    while i < n
        invariant
            n == s@.len(),
            i <= n,
            out@ == base + escape_str(s@.take(i as int)),
        decreases n - i,
    {
        let c = vstd::string::StrSliceExecFns::get_char(s.as_str(), i);
        if c == '"' {
            out.push('\\');
            out.push('"');
        } else if c == '\\' {
            out.push('\\');
            out.push('\\');
        } else if (c as u32) < 32 {
            out.push('\\');
            out.push('u');
            out.push('0');
            out.push('0');
            out.push(hex_digit_exec((c as u32) / 16));
            out.push(hex_digit_exec((c as u32) % 16));
        } else {
            out.push(c);
        }
        i = i + 1;
        proof {
            assert(s@.take(i as int).drop_last() =~= s@.take(i - 1));
            assert(s@.take(i as int) =~= s@.take(i - 1).push(s@[i - 1]));
            lemma_escape_snoc(s@.take(i - 1), s@[i - 1]);
            assert(out@ =~= base + escape_str(s@.take(i as int)));
        }
    }
    proof {
        assert(s@.take(n as int) =~= s@);
    }
}

// ---------------------------------------------------------------------------
// Rendering: the document
// ---------------------------------------------------------------------------

/// A JSON string token.
pub open spec fn rj_string(s: Seq<char>) -> Seq<char> {
    seq!['"'] + escape_str(s) + seq!['"']
}

pub open spec fn rj_null() -> Seq<char> {
    seq!['n', 'u', 'l', 'l']
}

pub open spec fn rj_bool(b: bool) -> Seq<char> {
    if b {
        seq!['t', 'r', 'u', 'e']
    } else {
        seq!['f', 'a', 'l', 's', 'e']
    }
}

pub open spec fn rj_opt_string(o: Option<Seq<char>>) -> Seq<char> {
    match o {
        Some(s) => rj_string(s),
        None => rj_null(),
    }
}

/// The member labels of a record, as raw text.
pub open spec fn lbl_name() -> Seq<char> {
    seq!['n', 'a', 'm', 'e']
}

pub open spec fn lbl_description() -> Seq<char> {
    seq!['d', 'e', 's', 'c', 'r', 'i', 'p', 't', 'i', 'o', 'n']
}

pub open spec fn lbl_version() -> Seq<char> {
    seq!['v', 'e', 'r', 's', 'i', 'o', 'n']
}

pub open spec fn lbl_ewd() -> Seq<char> {
    seq![
        'e', 'x', 'e', 'c', 'u', 't', 'e', '_', 'w', 'o', 'r', 'k', 'i', 'n', 'g', '_', 'd', 'i',
        'r', 'e', 'c', 't', 'o', 'r', 'y',
    ]
}

pub open spec fn lbl_main_executable() -> Seq<char> {
    seq!['m', 'a', 'i', 'n', '_', 'e', 'x', 'e', 'c', 'u', 't', 'a', 'b', 'l', 'e']
}

pub open spec fn lbl_use_prerelease() -> Seq<char> {
    seq!['u', 's', 'e', '_', 'p', 'r', 'e', 'r', 'e', 'l', 'e', 'a', 's', 'e']
}

pub open spec fn lbl_products() -> Seq<char> {
    seq!['p', 'r', 'o', 'd', 'u', 'c', 't', 's']
}

/// A member key and its colon: `"label":`.
pub open spec fn rj_key(label: Seq<char>) -> Seq<char> {
    seq!['"'] + label + seq!['"', ':']
}

/// One record, members in canonical order.
pub open spec fn rj_record(r: InstalledProductView) -> Seq<char> {
    seq!['{'] + rj_key(lbl_name()) + rj_string(r.name) + seq![','] + rj_key(lbl_description())
        + rj_string(r.description) + seq![','] + rj_key(lbl_version()) + rj_opt_string(r.version)
        + seq![','] + rj_key(lbl_ewd()) + rj_opt_string(r.execute_working_directory) + seq![',']
        + rj_key(lbl_main_executable()) + rj_opt_string(r.main_executable) + seq![','] + rj_key(
        lbl_use_prerelease(),
    ) + rj_bool(r.use_prerelease) + seq!['}']
}

/// The members of the `products` object, comma-separated, in store order.
pub open spec fn rj_entries(entries: Seq<(Seq<char>, InstalledProductView)>) -> Seq<char>
    decreases entries.len(),
{
    if entries.len() == 0 {
        Seq::empty()
    } else if entries.len() == 1 {
        rj_key_value(entries[0])
    } else {
        rj_entries(entries.drop_last()) + seq![','] + rj_key_value(entries.last())
    }
}

pub open spec fn rj_key_value(entry: (Seq<char>, InstalledProductView)) -> Seq<char> {
    rj_string(entry.0) + seq![':'] + rj_record(entry.1)
}

/// The whole document.
pub open spec fn rj_install(entries: Seq<(Seq<char>, InstalledProductView)>) -> Seq<char> {
    seq!['{'] + rj_key(lbl_products()) + seq!['{'] + rj_entries(entries) + seq!['}', '}']
}

/// Append a quoted string token.
fn push_string_token(out: &mut Vec<char>, s: &String)
    ensures
        final(out)@ == old(out)@ + rj_string(s@),
{
    out.push('"');
    push_escaped(out, s);
    out.push('"');
    proof {
        assert(out@ =~= old(out)@ + rj_string(s@));
    }
}

/// Append `null`.
fn push_null(out: &mut Vec<char>)
    ensures
        final(out)@ == old(out)@ + rj_null(),
{
    out.push('n');
    out.push('u');
    out.push('l');
    out.push('l');
    proof {
        assert(out@ =~= old(out)@ + rj_null());
    }
}

/// Append a string-or-null value.
fn push_opt_string(out: &mut Vec<char>, o: &Option<String>)
    ensures
        final(out)@ == old(out)@ + rj_opt_string(crate::manifest::opt_str_view(*o)),
{
    match o {
        Some(s) => push_string_token(out, s),
        None => push_null(out),
    }
}

/// Append `true` or `false`.
fn push_bool(out: &mut Vec<char>, b: bool)
    ensures
        final(out)@ == old(out)@ + rj_bool(b),
{
    if b {
        out.push('t');
        out.push('r');
        out.push('u');
        out.push('e');
        proof {
            assert(out@ =~= old(out)@ + rj_bool(b));
        }
    } else {
        out.push('f');
        out.push('a');
        out.push('l');
        out.push('s');
        out.push('e');
        proof {
            assert(out@ =~= old(out)@ + rj_bool(b));
        }
    }
}

fn push_key_name(out: &mut Vec<char>)
    ensures
        final(out)@ == old(out)@ + rj_key(lbl_name()),
{
    out.push('"');
    out.push('n');
    out.push('a');
    out.push('m');
    out.push('e');
    out.push('"');
    out.push(':');
    proof {
        assert(out@ =~= old(out)@ + rj_key(lbl_name()));
    }
}


fn push_key_description(out: &mut Vec<char>)
    ensures
        final(out)@ == old(out)@ + rj_key(lbl_description()),
{
    out.push('"');
    out.push('d');
    out.push('e');
    out.push('s');
    out.push('c');
    out.push('r');
    out.push('i');
    out.push('p');
    out.push('t');
    out.push('i');
    out.push('o');
    out.push('n');
    out.push('"');
    out.push(':');
    proof {
        assert(out@ =~= old(out)@ + rj_key(lbl_description()));
    }
}


fn push_key_version(out: &mut Vec<char>)
    ensures
        final(out)@ == old(out)@ + rj_key(lbl_version()),
{
    out.push('"');
    out.push('v');
    out.push('e');
    out.push('r');
    out.push('s');
    out.push('i');
    out.push('o');
    out.push('n');
    out.push('"');
    out.push(':');
    proof {
        assert(out@ =~= old(out)@ + rj_key(lbl_version()));
    }
}


fn push_key_ewd(out: &mut Vec<char>)
    ensures
        final(out)@ == old(out)@ + rj_key(lbl_ewd()),
{
    out.push('"');
    out.push('e');
    out.push('x');
    out.push('e');
    out.push('c');
    out.push('u');
    out.push('t');
    out.push('e');
    out.push('_');
    out.push('w');
    out.push('o');
    out.push('r');
    out.push('k');
    out.push('i');
    out.push('n');
    out.push('g');
    out.push('_');
    out.push('d');
    out.push('i');
    out.push('r');
    out.push('e');
    out.push('c');
    out.push('t');
    out.push('o');
    out.push('r');
    out.push('y');
    out.push('"');
    out.push(':');
    proof {
        assert(out@ =~= old(out)@ + rj_key(lbl_ewd()));
    }
}


fn push_key_main_executable(out: &mut Vec<char>)
    ensures
        final(out)@ == old(out)@ + rj_key(lbl_main_executable()),
{
    out.push('"');
    out.push('m');
    out.push('a');
    out.push('i');
    out.push('n');
    out.push('_');
    out.push('e');
    out.push('x');
    out.push('e');
    out.push('c');
    out.push('u');
    out.push('t');
    out.push('a');
    out.push('b');
    out.push('l');
    out.push('e');
    out.push('"');
    out.push(':');
    proof {
        assert(out@ =~= old(out)@ + rj_key(lbl_main_executable()));
    }
}


fn push_key_use_prerelease(out: &mut Vec<char>)
    ensures
        final(out)@ == old(out)@ + rj_key(lbl_use_prerelease()),
{
    out.push('"');
    out.push('u');
    out.push('s');
    out.push('e');
    out.push('_');
    out.push('p');
    out.push('r');
    out.push('e');
    out.push('r');
    out.push('e');
    out.push('l');
    out.push('e');
    out.push('a');
    out.push('s');
    out.push('e');
    out.push('"');
    out.push(':');
    proof {
        assert(out@ =~= old(out)@ + rj_key(lbl_use_prerelease()));
    }
}


/// Append one record.
#[verifier::rlimit(60)]
fn push_record(out: &mut Vec<char>, r: &InstalledProduct)
    ensures
        final(out)@ == old(out)@ + rj_record(r@),
{
    let ghost base = old(out)@;
    out.push('{');
    let ghost mut acc: Seq<char> = seq!['{'];
    proof {
        assert(out@ =~= base + acc);
    }
    push_key_name(out);
    proof {
        let seg: Seq<char> = rj_key(lbl_name());
        assert((base + acc) + seg =~= base + (acc + seg));
        acc = acc + seg;
        assert(out@ == base + acc);
    }
    push_string_token(out, &r.name);
    proof {
        let seg: Seq<char> = rj_string(r@.name);
        assert((base + acc) + seg =~= base + (acc + seg));
        acc = acc + seg;
        assert(out@ == base + acc);
    }
    out.push(',');
    proof {
        let seg: Seq<char> = seq![','];
        assert(out@ =~= (base + acc) + seg);
        assert((base + acc) + seg =~= base + (acc + seg));
        acc = acc + seg;
        assert(out@ == base + acc);
    }
    push_key_description(out);
    proof {
        let seg: Seq<char> = rj_key(lbl_description());
        assert((base + acc) + seg =~= base + (acc + seg));
        acc = acc + seg;
        assert(out@ == base + acc);
    }
    push_string_token(out, &r.description);
    proof {
        let seg: Seq<char> = rj_string(r@.description);
        assert((base + acc) + seg =~= base + (acc + seg));
        acc = acc + seg;
        assert(out@ == base + acc);
    }
    out.push(',');
    proof {
        let seg: Seq<char> = seq![','];
        assert(out@ =~= (base + acc) + seg);
        assert((base + acc) + seg =~= base + (acc + seg));
        acc = acc + seg;
        assert(out@ == base + acc);
    }
    push_key_version(out);
    proof {
        let seg: Seq<char> = rj_key(lbl_version());
        assert((base + acc) + seg =~= base + (acc + seg));
        acc = acc + seg;
        assert(out@ == base + acc);
    }
    push_opt_string(out, &r.version);
    proof {
        let seg: Seq<char> = rj_opt_string(r@.version);
        assert((base + acc) + seg =~= base + (acc + seg));
        acc = acc + seg;
        assert(out@ == base + acc);
    }
    out.push(',');
    proof {
        let seg: Seq<char> = seq![','];
        assert(out@ =~= (base + acc) + seg);
        assert((base + acc) + seg =~= base + (acc + seg));
        acc = acc + seg;
        assert(out@ == base + acc);
    }
    push_key_ewd(out);
    proof {
        let seg: Seq<char> = rj_key(lbl_ewd());
        assert((base + acc) + seg =~= base + (acc + seg));
        acc = acc + seg;
        assert(out@ == base + acc);
    }
    push_opt_string(out, &r.execute_working_directory);
    proof {
        let seg: Seq<char> = rj_opt_string(r@.execute_working_directory);
        assert((base + acc) + seg =~= base + (acc + seg));
        acc = acc + seg;
        assert(out@ == base + acc);
    }
    out.push(',');
    proof {
        let seg: Seq<char> = seq![','];
        assert(out@ =~= (base + acc) + seg);
        assert((base + acc) + seg =~= base + (acc + seg));
        acc = acc + seg;
        assert(out@ == base + acc);
    }
    push_key_main_executable(out);
    proof {
        let seg: Seq<char> = rj_key(lbl_main_executable());
        assert((base + acc) + seg =~= base + (acc + seg));
        acc = acc + seg;
        assert(out@ == base + acc);
    }
    push_opt_string(out, &r.main_executable);
    proof {
        let seg: Seq<char> = rj_opt_string(r@.main_executable);
        assert((base + acc) + seg =~= base + (acc + seg));
        acc = acc + seg;
        assert(out@ == base + acc);
    }
    out.push(',');
    proof {
        let seg: Seq<char> = seq![','];
        assert(out@ =~= (base + acc) + seg);
        assert((base + acc) + seg =~= base + (acc + seg));
        acc = acc + seg;
        assert(out@ == base + acc);
    }
    push_key_use_prerelease(out);
    proof {
        let seg: Seq<char> = rj_key(lbl_use_prerelease());
        assert((base + acc) + seg =~= base + (acc + seg));
        acc = acc + seg;
        assert(out@ == base + acc);
    }
    push_bool(out, r.use_prerelease);
    proof {
        let seg: Seq<char> = rj_bool(r@.use_prerelease);
        assert((base + acc) + seg =~= base + (acc + seg));
        acc = acc + seg;
        assert(out@ == base + acc);
    }
    out.push('}');
    proof {
        let seg: Seq<char> = seq!['}'];
        assert(out@ =~= (base + acc) + seg);
        assert((base + acc) + seg =~= base + (acc + seg));
        acc = acc + seg;
        assert(out@ == base + acc);
    }
    proof {
        assert(acc == rj_record(r@));
        assert(out@ == base + rj_record(r@));
    }
}

/// Render the whole store as its canonical document.
#[verifier::rlimit(60)]
pub fn render_install(install: &Install) -> (r: Vec<char>)
    ensures
        r@ == rj_install(install@),
{
    let mut out: Vec<char> = Vec::new();
    out.push('{');
    out.push('"');
    out.push('p');
    out.push('r');
    out.push('o');
    out.push('d');
    out.push('u');
    out.push('c');
    out.push('t');
    out.push('s');
    out.push('"');
    out.push(':');
    out.push('{');
    let ghost frame = out@;
    let n = install.len();
    let mut i: usize = 0;
    proof {
        assert(install@.take(0) =~= Seq::<(Seq<char>, InstalledProductView)>::empty());
        assert(out@ =~= frame + rj_entries(install@.take(0)));
    }
    while i < n
        invariant
            n == install@.len(),
            i <= n,
            frame.len() >= 0,
            out@ == frame + rj_entries(install@.take(i as int)),
        decreases n - i,
    {
        let ghost pre = out@;
        if i > 0 {
            out.push(',');
        }
        let id = install.key_at(i);
        push_string_token(&mut out, id);
        out.push(':');
        let rec = install.record_at(i);
        push_record(&mut out, rec);
        i = i + 1;
        proof {
            assert(install@.take(i as int).drop_last() =~= install@.take(i - 1));
            assert(install@.take(i as int).last() == install@[i - 1]);
            let kv = rj_key_value(install@[i - 1]);
            if i - 1 == 0 {
                assert(out@ =~= pre + kv);
                assert(install@.take(1)[0] == install@[0]);
                assert(rj_entries(install@.take(1)) == kv);
                assert(pre + kv =~= frame + rj_entries(install@.take(i as int)));
            } else {
                assert(out@ =~= pre + (seq![','] + kv));
                assert(rj_entries(install@.take(i as int)) == rj_entries(install@.take(i - 1))
                    + seq![','] + kv);
                assert(pre + (seq![','] + kv) =~= frame + rj_entries(install@.take(i as int)));
            }
            assert(out@ == frame + rj_entries(install@.take(i as int)));
        }
    }
    out.push('}');
    out.push('}');
    proof {
        assert(install@.take(n as int) =~= install@);
        assert(out@ =~= rj_install(install@));
    }
    out
}

} // verus!

verus! {

// ---------------------------------------------------------------------------
// Parsing: the grammar
// ---------------------------------------------------------------------------

pub open spec fn is_ws(c: char) -> bool {
    c == ' ' || c == '\t' || c == '\n' || c == '\r'
}

/// The first position at or after `i` holding no whitespace.
pub open spec fn skip_ws(s: Seq<char>, i: int) -> int
    decreases s.len() - i,
{
    if 0 <= i < s.len() && is_ws(s[i]) {
        skip_ws(s, i + 1)
    } else {
        i
    }
}

/// Exact-text match: the position after `lit`, when `s` holds `lit` at `i`.
pub open spec fn pj_lit(s: Seq<char>, i: int, lit: Seq<char>) -> Option<int> {
    if 0 <= i && i + lit.len() <= s.len() && s.subrange(i, i + lit.len()) == lit {
        Some(i + lit.len())
    } else {
        None
    }
}

/// The value of a hexadecimal digit character.
pub open spec fn hex_val(c: char) -> Option<int> {
    if 48 <= c as u32 && c as u32 <= 57 {
        Some(c as u32 as int - 48)
    } else if 97 <= c as u32 && c as u32 <= 102 {
        Some(c as u32 as int - 87)
    } else if 65 <= c as u32 && c as u32 <= 70 {
        Some(c as u32 as int - 55)
    } else {
        None
    }
}

/// The character with scalar value `n`.
pub open spec fn char_of(n: int) -> char {
    (n as u32) as char
}

/// The rest of a string token after the opening quote: its unescaped
/// text, and the position after the closing quote. Control characters
/// must be escaped; `\uXXXX` is accepted for scalar values outside the
/// surrogate range.
pub open spec fn pj_string_body(s: Seq<char>, i: int) -> Option<(Seq<char>, int)>
    decreases s.len() - i,
{
    if i < 0 || i >= s.len() {
        None
    } else if s[i] == '"' {
        Some((Seq::empty(), i + 1))
    } else if s[i] == '\\' {
        if i + 1 >= s.len() {
            None
        } else {
            let e = s[i + 1];
            if e == '"' || e == '\\' || e == '/' {
                pj_cons(e, pj_string_body(s, i + 2))
            } else if e == 'b' {
                pj_cons('\u{0008}', pj_string_body(s, i + 2))
            } else if e == 'f' {
                pj_cons('\u{000C}', pj_string_body(s, i + 2))
            } else if e == 'n' {
                pj_cons('\n', pj_string_body(s, i + 2))
            } else if e == 'r' {
                pj_cons('\r', pj_string_body(s, i + 2))
            } else if e == 't' {
                pj_cons('\t', pj_string_body(s, i + 2))
            } else if e == 'u' && i + 6 <= s.len() {
                match (hex_val(s[i + 2]), hex_val(s[i + 3]), hex_val(s[i + 4]), hex_val(s[i + 5])) {
                    (Some(d0), Some(d1), Some(d2), Some(d3)) => {
                        let v = d0 * 4096 + d1 * 256 + d2 * 16 + d3;
                        if 0xD800 <= v < 0xE000 {
                            None
                        } else {
                            pj_cons(char_of(v), pj_string_body(s, i + 6))
                        }
                    },
                    _ => None,
                }
            } else {
                None
            }
        }
    } else if (s[i] as u32) < 32 {
        None
    } else {
        pj_cons(s[i], pj_string_body(s, i + 1))
    }
}

pub open spec fn pj_cons(c: char, rest: Option<(Seq<char>, int)>) -> Option<(Seq<char>, int)> {
    match rest {
        Some((t, j)) => Some((seq![c] + t, j)),
        None => None,
    }
}

/// A string token at `i` (no leading whitespace).
pub open spec fn pj_string(s: Seq<char>, i: int) -> Option<(Seq<char>, int)> {
    if 0 <= i < s.len() && s[i] == '"' {
        pj_string_body(s, i + 1)
    } else {
        None
    }
}

pub proof fn lemma_pj_string_body_bounds(s: Seq<char>, i: int)
    ensures
        pj_string_body(s, i) matches Some(r) ==> i < r.1 <= s.len(),
    decreases s.len() - i,
{
    if 0 <= i < s.len() {
        lemma_pj_string_body_bounds(s, i + 1);
        if i + 2 <= s.len() {
            lemma_pj_string_body_bounds(s, i + 2);
        }
        if i + 6 <= s.len() {
            lemma_pj_string_body_bounds(s, i + 6);
        }
    }
}

/// `null`, or a string token.
pub open spec fn pj_opt_string(s: Seq<char>, i: int) -> Option<(Option<Seq<char>>, int)> {
    if 0 <= i < s.len() && s[i] == '"' {
        match pj_string_body(s, i + 1) {
            Some((t, j)) => Some((Some(t), j)),
            None => None,
        }
    } else {
        match pj_lit(s, i, rj_null()) {
            Some(j) => Some((None, j)),
            None => None,
        }
    }
}

/// `true` or `false`.
pub open spec fn pj_bool(s: Seq<char>, i: int) -> Option<(bool, int)> {
    match pj_lit(s, i, rj_bool(true)) {
        Some(j) => Some((true, j)),
        None => match pj_lit(s, i, rj_bool(false)) {
            Some(j) => Some((false, j)),
            None => None,
        },
    }
}

/// A character that may continue a JSON number.
pub open spec fn is_num_char(c: char) -> bool {
    (48 <= c as u32 && c as u32 <= 57) || c == '-' || c == '+' || c == '.' || c == 'e' || c == 'E'
}

/// The first position at or after `i` past any number characters.
pub open spec fn skip_num(s: Seq<char>, i: int) -> int
    decreases s.len() - i,
{
    if 0 <= i < s.len() && is_num_char(s[i]) {
        skip_num(s, i + 1)
    } else {
        i
    }
}

/// Skip a primitive value (string, number, `null`, `true`, `false`):
/// the position after it. A nested object or array is refused.
pub open spec fn pj_skip_primitive(s: Seq<char>, i: int) -> Option<int> {
    if 0 <= i < s.len() && s[i] == '"' {
        match pj_string_body(s, i + 1) {
            Some((t, j)) => Some(j),
            None => None,
        }
    } else if 0 <= i < s.len() && is_num_char(s[i]) {
        Some(skip_num(s, i))
    } else {
        match pj_lit(s, i, rj_null()) {
            Some(j) => Some(j),
            None => match pj_bool(s, i) {
                Some((b, j)) => Some(j),
                None => None,
            },
        }
    }
}

} // verus!

verus! {

use crate::install::spec_default_record;

/// A record view with one member replaced, chosen by the key.
pub open spec fn rec_set(
    acc: InstalledProductView,
    key: Seq<char>,
    str_val: Seq<char>,
    opt_val: Option<Seq<char>>,
    bool_val: bool,
) -> InstalledProductView {
    if key == lbl_name() {
        InstalledProductView { name: str_val, ..acc }
    } else if key == lbl_description() {
        InstalledProductView { description: str_val, ..acc }
    } else if key == lbl_version() {
        InstalledProductView { version: opt_val, ..acc }
    } else if key == lbl_ewd() {
        InstalledProductView { execute_working_directory: opt_val, ..acc }
    } else if key == lbl_main_executable() {
        InstalledProductView { main_executable: opt_val, ..acc }
    } else {
        InstalledProductView { use_prerelease: bool_val, ..acc }
    }
}

/// Is this a key whose value is a string member of the record?
pub open spec fn is_string_key(key: Seq<char>) -> bool {
    key == lbl_name() || key == lbl_description()
}

/// Is this a key whose value is a string-or-null member?
pub open spec fn is_opt_key(key: Seq<char>) -> bool {
    key == lbl_version() || key == lbl_ewd() || key == lbl_main_executable()
}

/// The members of a record object, starting after its `{` (or after a
/// comma): each member updates the record, members may come in any
/// order, later members win, unknown members with primitive values are
/// skipped. Ends after the closing `}`.
pub open spec fn pj_members(s: Seq<char>, i: int, acc: InstalledProductView) -> Option<
    (InstalledProductView, int),
>
    decreases s.len() - i,
{
    let k = skip_ws(s, i);
    if !(i <= k && k <= s.len()) {
        None
    } else {
        match pj_string(s, k) {
            None => None,
            Some((key, j1)) => {
                if !(k < j1 && j1 <= s.len()) {
                    None
                } else {
                    let j2 = skip_ws(s, j1);
                    if !(j1 <= j2 && 0 <= j2 < s.len() && s[j2] == ':') {
                        None
                    } else {
                        let j3 = skip_ws(s, j2 + 1);
                        match pj_members_step(s, j3, acc, key) {
                            None => None,
                            Some((acc2, j4)) => {
                                if !(j2 + 1 <= j4 && j4 <= s.len()) {
                                    None
                                } else {
                                    let j5 = skip_ws(s, j4);
                                    if !(j4 <= j5 && j5 <= s.len()) {
                                        None
                                    } else if j5 < s.len() && s[j5] == ',' {
                                        pj_members(s, j5 + 1, acc2)
                                    } else if j5 < s.len() && s[j5] == '}' {
                                        Some((acc2, j5 + 1))
                                    } else {
                                        None
                                    }
                                }
                            },
                        }
                    }
                }
            },
        }
    }
}

/// A record object at `i` (after optional whitespace).
pub open spec fn pj_record(s: Seq<char>, i: int) -> Option<(InstalledProductView, int)> {
    let j = skip_ws(s, i);
    if 0 <= j < s.len() && s[j] == '{' {
        let j1 = skip_ws(s, j + 1);
        if 0 <= j1 < s.len() && s[j1] == '}' {
            Some((spec_default_record(), j1 + 1))
        } else {
            pj_members(s, j + 1, spec_default_record())
        }
    } else {
        None
    }
}

/// The member-value step of `pj_members`, named so proofs can speak of it.
pub open spec fn pj_members_step(
    s: Seq<char>,
    j3: int,
    acc: InstalledProductView,
    key: Seq<char>,
) -> Option<(InstalledProductView, int)> {
    if is_string_key(key) {
        match pj_string(s, j3) {
            Some((v, j)) => Some((rec_set(acc, key, v, None, false), j)),
            None => None,
        }
    } else if is_opt_key(key) {
        match pj_opt_string(s, j3) {
            Some((v, j)) => Some((rec_set(acc, key, Seq::empty(), v, false), j)),
            None => None,
        }
    } else if key == lbl_use_prerelease() {
        match pj_bool(s, j3) {
            Some((v, j)) => Some((rec_set(acc, key, Seq::empty(), None, v), j)),
            None => None,
        }
    } else {
        match pj_skip_primitive(s, j3) {
            Some(j) => Some((acc, j)),
            None => None,
        }
    }
}

} // verus!

verus! {

/// The members of the `products` object, starting after its `{` (or a
/// comma): each member is a product id and its record, collected in
/// document order. Ends after the closing `}`.
pub open spec fn pj_prod_members(
    s: Seq<char>,
    i: int,
    acc: Seq<(Seq<char>, InstalledProductView)>,
) -> Option<(Seq<(Seq<char>, InstalledProductView)>, int)>
    decreases s.len() - i,
{
    let k = skip_ws(s, i);
    if !(i <= k && k <= s.len()) {
        None
    } else {
        match pj_string(s, k) {
            None => None,
            Some((id, j1)) => {
                if !(k < j1 && j1 <= s.len()) {
                    None
                } else {
                    let j2 = skip_ws(s, j1);
                    if !(j1 <= j2 && 0 <= j2 < s.len() && s[j2] == ':') {
                        None
                    } else {
                        match pj_record(s, j2 + 1) {
                            None => None,
                            Some((rec, j4)) => {
                                if !(j2 + 1 <= j4 && j4 <= s.len()) {
                                    None
                                } else {
                                    let j5 = skip_ws(s, j4);
                                    if !(j4 <= j5 && j5 <= s.len()) {
                                        None
                                    } else if j5 < s.len() && s[j5] == ',' {
                                        pj_prod_members(s, j5 + 1, acc.push((id, rec)))
                                    } else if j5 < s.len() && s[j5] == '}' {
                                        Some((acc.push((id, rec)), j5 + 1))
                                    } else {
                                        None
                                    }
                                }
                            },
                        }
                    }
                }
            },
        }
    }
}

/// The `products` object at `i`.
pub open spec fn pj_products(s: Seq<char>, i: int) -> Option<
    (Seq<(Seq<char>, InstalledProductView)>, int),
> {
    let j = skip_ws(s, i);
    if 0 <= j < s.len() && s[j] == '{' {
        let j1 = skip_ws(s, j + 1);
        if 0 <= j1 < s.len() && s[j1] == '}' {
            Some((Seq::empty(), j1 + 1))
        } else {
            pj_prod_members(s, j + 1, Seq::empty())
        }
    } else {
        None
    }
}

/// The whole document: an object whose only member is `products`. The
/// entries are returned in document order.
pub open spec fn pj_install(s: Seq<char>) -> Option<Seq<(Seq<char>, InstalledProductView)>> {
    let i0 = skip_ws(s, 0);
    if !(0 <= i0 < s.len() && s[i0] == '{') {
        None
    } else {
        let i1 = skip_ws(s, i0 + 1);
        match pj_string(s, i1) {
            None => None,
            Some((key, j1)) => {
                if key != lbl_products() {
                    None
                } else {
                    let j2 = skip_ws(s, j1);
                    if !(0 <= j2 < s.len() && s[j2] == ':') {
                        None
                    } else {
                        match pj_products(s, j2 + 1) {
                            None => None,
                            Some((entries, j4)) => {
                                let j5 = skip_ws(s, j4);
                                if 0 <= j5 < s.len() && s[j5] == '}' && skip_ws(s, j5 + 1)
                                    == s.len() {
                                    Some(entries)
                                } else {
                                    None
                                }
                            },
                        }
                    }
                }
            },
        }
    }
}

/// Two entries share an id.
pub open spec fn spec_has_dup(entries: Seq<(Seq<char>, InstalledProductView)>) -> bool {
    exists|a: int, b: int|
        0 <= a < b < entries.len() && (#[trigger] entries[a]).0 == (#[trigger] entries[b]).0
}

} // verus!

verus! {

// ---------------------------------------------------------------------------
// Parsing: executable
// ---------------------------------------------------------------------------

/// Relies on `char::from_u32` from std (which vstd leaves unspecified):
/// yields the character with the given scalar value, and nothing exactly
/// for surrogates and values beyond the highest code point.
pub assume_specification[ char::from_u32 ](v: u32) -> (r: Option<char>)
    ensures
        r is Some <==> (v < 0xD800 || (0xE000 <= v && v <= 0x10FFFF)),
        r matches Some(c) ==> c as u32 == v,
;

/// Skip whitespace.
fn skip_ws_exec(s: &Vec<char>, i: usize) -> (r: usize)
    requires
        i <= s@.len(),
    ensures
        r as int == skip_ws(s@, i as int),
        i <= r <= s@.len(),
{
    let mut cur = i;
    while cur < s.len() && (s[cur] == ' ' || s[cur] == '\t' || s[cur] == '\n' || s[cur] == '\r')
        invariant
            i <= cur <= s@.len(),
            skip_ws(s@, i as int) == skip_ws(s@, cur as int),
        decreases s@.len() - cur,
    {
        cur = cur + 1;
    }
    cur
}

/// Parse the rest of a string token after its opening quote.
fn parse_string_body(s: &Vec<char>, i: usize) -> (r: Option<(Vec<char>, usize)>)
    requires
        i <= s@.len(),
    ensures
        match r {
            Some(p) => pj_string_body(s@, i as int) == Some((p.0@, p.1 as int)) && i < p.1
                <= s@.len(),
            None => pj_string_body(s@, i as int) is None,
        },
{
    proof {
        lemma_pj_string_body_bounds(s@, i as int);
    }
    let mut acc: Vec<char> = Vec::new();
    let mut cur = i;
    proof {
        assert(acc@ =~= Seq::<char>::empty());
    }
    loop
        invariant
            i <= cur <= s@.len(),
            match pj_string_body(s@, cur as int) {
                Some(p) => pj_string_body(s@, i as int) == Some((acc@ + p.0, p.1)),
                None => pj_string_body(s@, i as int) is None,
            },
        decreases s@.len() - cur,
    {
        proof {
            lemma_pj_string_body_bounds(s@, i as int);
            lemma_pj_string_body_bounds(s@, cur as int);
        }
        if cur == s.len() {
            return None;
        }
        let c = s[cur];
        if c == '"' {
            proof {
                assert(acc@ + Seq::<char>::empty() =~= acc@);
            }
            return Some((acc, cur + 1));
        }
        if c == '\\' {
            if cur + 1 == s.len() {
                return None;
            }
            let e = s[cur + 1];
            let unescaped: Option<char> = if e == '"' || e == '\\' || e == '/' {
                Some(e)
            } else if e == 'b' {
                Some('\u{0008}')
            } else if e == 'f' {
                Some('\u{000C}')
            } else if e == 'n' {
                Some('\n')
            } else if e == 'r' {
                Some('\r')
            } else if e == 't' {
                Some('\t')
            } else {
                None
            };
            match unescaped {
                Some(u) => {
                    let ghost acc0 = acc@;
                    acc.push(u);
                    cur = cur + 2;
                    proof {
                        match pj_string_body(s@, cur as int) {
                            Some(p) => {
                                assert(acc0 + (seq![u] + p.0) =~= acc@ + p.0);
                            },
                            None => {},
                        }
                    }
                },
                None => {
                    if e != 'u' {
                        return None;
                    }
                    if s.len() - cur < 6 {
                        return None;
                    }
                    let h0 = hex_val_exec(s[cur + 2]);
                    let h1 = hex_val_exec(s[cur + 3]);
                    let h2 = hex_val_exec(s[cur + 4]);
                    let h3 = hex_val_exec(s[cur + 5]);
                    match (h0, h1, h2, h3) {
                        (Some(d0), Some(d1), Some(d2), Some(d3)) => {
                            let v: u32 = (d0 as u32) * 4096 + (d1 as u32) * 256 + (d2 as u32) * 16
                                + (d3 as u32);
                            if 0xD800 <= v && v < 0xE000 {
                                return None;
                            }
                            let u = char::from_u32(v).unwrap();
                            proof {
                                vstd::utf8::char_u32_cast(u, v);
                                assert(char_of(v as int) == u);
                            }
                            let ghost acc0 = acc@;
                            acc.push(u);
                            cur = cur + 6;
                            proof {
                                match pj_string_body(s@, cur as int) {
                                    Some(p) => {
                                        assert(acc0 + (seq![u] + p.0) =~= acc@ + p.0);
                                    },
                                    None => {},
                                }
                            }
                        },
                        _ => {
                            return None;
                        },
                    }
                },
            }
        } else if (c as u32) < 32 {
            return None;
        } else {
            let ghost acc0 = acc@;
            acc.push(c);
            cur = cur + 1;
            proof {
                match pj_string_body(s@, cur as int) {
                    Some(p) => {
                        assert(acc0 + (seq![c] + p.0) =~= acc@ + p.0);
                    },
                    None => {},
                }
            }
        }
    }
}

/// The value of a hexadecimal digit character.
fn hex_val_exec(c: char) -> (r: Option<u8>)
    ensures
        match r {
            Some(v) => hex_val(c) == Some(v as int) && v < 16,
            None => hex_val(c) is None,
        },
{
    let u = c as u32;
    if 48 <= u && u <= 57 {
        Some((u - 48) as u8)
    } else if 97 <= u && u <= 102 {
        Some((u - 87) as u8)
    } else if 65 <= u && u <= 70 {
        Some((u - 55) as u8)
    } else {
        None
    }
}

/// Parse a string token (expects the opening quote at `i`).
fn parse_string(s: &Vec<char>, i: usize) -> (r: Option<(Vec<char>, usize)>)
    requires
        i <= s@.len(),
    ensures
        match r {
            Some(p) => pj_string(s@, i as int) == Some((p.0@, p.1 as int)) && i < p.1 <= s@.len(),
            None => pj_string(s@, i as int) is None,
        },
{
    if i < s.len() && s[i] == '"' {
        parse_string_body(s, i + 1)
    } else {
        None
    }
}

/// Match the exact text `null` at `i`.
fn parse_null(s: &Vec<char>, i: usize) -> (r: Option<usize>)
    requires
        i <= s@.len(),
    ensures
        match r {
            Some(j) => pj_lit(s@, i as int, rj_null()) == Some(j as int) && i < j <= s@.len(),
            None => pj_lit(s@, i as int, rj_null()) is None,
        },
{
    if s.len() - i >= 4 && s[i] == 'n' && s[i + 1] == 'u' && s[i + 2] == 'l' && s[i + 3] == 'l' {
        proof {
            assert(s@.subrange(i as int, i + 4) =~= rj_null());
        }
        Some(i + 4)
    } else {
        proof {
            if i + 4 <= s@.len() && s@.subrange(i as int, i + 4) == rj_null() {
                assert(s@[i as int] == rj_null()[0]);
                assert(s@[i + 1] == rj_null()[1]);
                assert(s@[i + 2] == rj_null()[2]);
                assert(s@[i + 3] == rj_null()[3]);
            }
        }
        None
    }
}

/// Parse `null` or a string token.
fn parse_opt_string(s: &Vec<char>, i: usize) -> (r: Option<(Option<Vec<char>>, usize)>)
    requires
        i <= s@.len(),
    ensures
        match r {
            Some(p) => (match p.0 {
                Some(ref t) => pj_opt_string(s@, i as int) == Some((Some(t@), p.1 as int)),
                None => pj_opt_string(s@, i as int) == Some((None::<Seq<char>>, p.1 as int)),
            }) && i < p.1 <= s@.len(),
            None => pj_opt_string(s@, i as int) is None,
        },
{
    if i < s.len() && s[i] == '"' {
        match parse_string_body(s, i + 1) {
            Some((t, j)) => Some((Some(t), j)),
            None => None,
        }
    } else {
        match parse_null(s, i) {
            Some(j) => Some((None, j)),
            None => None,
        }
    }
}

/// Match `true` or `false` at `i`.
fn parse_bool(s: &Vec<char>, i: usize) -> (r: Option<(bool, usize)>)
    requires
        i <= s@.len(),
    ensures
        match r {
            Some(p) => pj_bool(s@, i as int) == Some((p.0, p.1 as int)) && i < p.1 <= s@.len(),
            None => pj_bool(s@, i as int) is None,
        },
{
    if s.len() - i >= 4 && s[i] == 't' && s[i + 1] == 'r' && s[i + 2] == 'u' && s[i + 3] == 'e' {
        proof {
            assert(s@.subrange(i as int, i + 4) =~= rj_bool(true));
        }
        Some((true, i + 4))
    } else if s.len() - i >= 5 && s[i] == 'f' && s[i + 1] == 'a' && s[i + 2] == 'l' && s[i + 3]
        == 's' && s[i + 4] == 'e' {
        proof {
            assert(s@.subrange(i as int, i + 5) =~= rj_bool(false));
            if i + 4 <= s@.len() && s@.subrange(i as int, i + 4) == rj_bool(true) {
                assert(s@[i as int] == rj_bool(true)[0]);
            }
        }
        Some((false, i + 5))
    } else {
        proof {
            if i + 4 <= s@.len() && s@.subrange(i as int, i + 4) == rj_bool(true) {
                assert(s@[i as int] == rj_bool(true)[0]);
                assert(s@[i + 1] == rj_bool(true)[1]);
                assert(s@[i + 2] == rj_bool(true)[2]);
                assert(s@[i + 3] == rj_bool(true)[3]);
            }
            if i + 5 <= s@.len() && s@.subrange(i as int, i + 5) == rj_bool(false) {
                assert(s@[i as int] == rj_bool(false)[0]);
                assert(s@[i + 1] == rj_bool(false)[1]);
                assert(s@[i + 2] == rj_bool(false)[2]);
                assert(s@[i + 3] == rj_bool(false)[3]);
                assert(s@[i + 4] == rj_bool(false)[4]);
            }
        }
        None
    }
}

/// Skip a primitive value.
fn skip_primitive_exec(s: &Vec<char>, i: usize) -> (r: Option<usize>)
    requires
        i <= s@.len(),
    ensures
        match r {
            Some(j) => pj_skip_primitive(s@, i as int) == Some(j as int) && i <= j <= s@.len(),
            None => pj_skip_primitive(s@, i as int) is None,
        },
{
    if i < s.len() && s[i] == '"' {
        match parse_string_body(s, i + 1) {
            Some((t, j)) => Some(j),
            None => None,
        }
    } else if i < s.len() && ((48 <= s[i] as u32 && s[i] as u32 <= 57) || s[i] == '-' || s[i]
        == '+' || s[i] == '.' || s[i] == 'e' || s[i] == 'E') {
        proof {
            assert(is_num_char(s@[i as int]));
        }
        let mut cur = i;
        while cur < s.len() && ((48 <= s[cur] as u32 && s[cur] as u32 <= 57) || s[cur] == '-'
            || s[cur] == '+' || s[cur] == '.' || s[cur] == 'e' || s[cur] == 'E')
            invariant
                i <= cur <= s@.len(),
                skip_num(s@, i as int) == skip_num(s@, cur as int),
            decreases s@.len() - cur,
        {
            cur = cur + 1;
        }
        Some(cur)
    } else {
        match parse_null(s, i) {
            Some(j) => Some(j),
            None => match parse_bool(s, i) {
                Some((b, j)) => Some(j),
                None => None,
            },
        }
    }
}

} // verus!

verus! {

/// Is this key the `name` label?
fn key_is_name(k: &Vec<char>) -> (r: bool)
    ensures
        r == (k@ == lbl_name()),
{
    if k.len() != 4 {
        proof {
            if k@ == lbl_name() {
                assert(k@.len() == 4);
            }
        }
        return false;
    }
    if k[0] == 'n' && k[1] == 'a' && k[2] == 'm' && k[3] == 'e' {
        proof {
            assert(k@ =~= lbl_name());
        }
        true
    } else {
        proof {
            if k@ == lbl_name() {
                assert(k@[0] == lbl_name()[0]);
                assert(k@[1] == lbl_name()[1]);
                assert(k@[2] == lbl_name()[2]);
                assert(k@[3] == lbl_name()[3]);
            }
        }
        false
    }
}

/// Is this key the `description` label?
fn key_is_description(k: &Vec<char>) -> (r: bool)
    ensures
        r == (k@ == lbl_description()),
{
    if k.len() != 11 {
        proof {
            if k@ == lbl_description() {
                assert(k@.len() == 11);
            }
        }
        return false;
    }
    if k[0] == 'd' && k[1] == 'e' && k[2] == 's' && k[3] == 'c' && k[4] == 'r' && k[5] == 'i' && k[6] == 'p' && k[7] == 't' && k[8] == 'i' && k[9] == 'o' && k[10] == 'n' {
        proof {
            assert(k@ =~= lbl_description());
        }
        true
    } else {
        proof {
            if k@ == lbl_description() {
                assert(k@[0] == lbl_description()[0]);
                assert(k@[1] == lbl_description()[1]);
                assert(k@[2] == lbl_description()[2]);
                assert(k@[3] == lbl_description()[3]);
                assert(k@[4] == lbl_description()[4]);
                assert(k@[5] == lbl_description()[5]);
                assert(k@[6] == lbl_description()[6]);
                assert(k@[7] == lbl_description()[7]);
                assert(k@[8] == lbl_description()[8]);
                assert(k@[9] == lbl_description()[9]);
                assert(k@[10] == lbl_description()[10]);
            }
        }
        false
    }
}

/// Is this key the `version` label?
fn key_is_version(k: &Vec<char>) -> (r: bool)
    ensures
        r == (k@ == lbl_version()),
{
    if k.len() != 7 {
        proof {
            if k@ == lbl_version() {
                assert(k@.len() == 7);
            }
        }
        return false;
    }
    if k[0] == 'v' && k[1] == 'e' && k[2] == 'r' && k[3] == 's' && k[4] == 'i' && k[5] == 'o' && k[6] == 'n' {
        proof {
            assert(k@ =~= lbl_version());
        }
        true
    } else {
        proof {
            if k@ == lbl_version() {
                assert(k@[0] == lbl_version()[0]);
                assert(k@[1] == lbl_version()[1]);
                assert(k@[2] == lbl_version()[2]);
                assert(k@[3] == lbl_version()[3]);
                assert(k@[4] == lbl_version()[4]);
                assert(k@[5] == lbl_version()[5]);
                assert(k@[6] == lbl_version()[6]);
            }
        }
        false
    }
}

/// Is this key the `execute_working_directory` label?
fn key_is_ewd(k: &Vec<char>) -> (r: bool)
    ensures
        r == (k@ == lbl_ewd()),
{
    if k.len() != 25 {
        proof {
            if k@ == lbl_ewd() {
                assert(k@.len() == 25);
            }
        }
        return false;
    }
    if k[0] == 'e' && k[1] == 'x' && k[2] == 'e' && k[3] == 'c' && k[4] == 'u' && k[5] == 't' && k[6] == 'e' && k[7] == '_' && k[8] == 'w' && k[9] == 'o' && k[10] == 'r' && k[11] == 'k' && k[12] == 'i' && k[13] == 'n' && k[14] == 'g' && k[15] == '_' && k[16] == 'd' && k[17] == 'i' && k[18] == 'r' && k[19] == 'e' && k[20] == 'c' && k[21] == 't' && k[22] == 'o' && k[23] == 'r' && k[24] == 'y' {
        proof {
            assert(k@ =~= lbl_ewd());
        }
        true
    } else {
        proof {
            if k@ == lbl_ewd() {
                assert(k@[0] == lbl_ewd()[0]);
                assert(k@[1] == lbl_ewd()[1]);
                assert(k@[2] == lbl_ewd()[2]);
                assert(k@[3] == lbl_ewd()[3]);
                assert(k@[4] == lbl_ewd()[4]);
                assert(k@[5] == lbl_ewd()[5]);
                assert(k@[6] == lbl_ewd()[6]);
                assert(k@[7] == lbl_ewd()[7]);
                assert(k@[8] == lbl_ewd()[8]);
                assert(k@[9] == lbl_ewd()[9]);
                assert(k@[10] == lbl_ewd()[10]);
                assert(k@[11] == lbl_ewd()[11]);
                assert(k@[12] == lbl_ewd()[12]);
                assert(k@[13] == lbl_ewd()[13]);
                assert(k@[14] == lbl_ewd()[14]);
                assert(k@[15] == lbl_ewd()[15]);
                assert(k@[16] == lbl_ewd()[16]);
                assert(k@[17] == lbl_ewd()[17]);
                assert(k@[18] == lbl_ewd()[18]);
                assert(k@[19] == lbl_ewd()[19]);
                assert(k@[20] == lbl_ewd()[20]);
                assert(k@[21] == lbl_ewd()[21]);
                assert(k@[22] == lbl_ewd()[22]);
                assert(k@[23] == lbl_ewd()[23]);
                assert(k@[24] == lbl_ewd()[24]);
            }
        }
        false
    }
}

/// Is this key the `main_executable` label?
fn key_is_main_executable(k: &Vec<char>) -> (r: bool)
    ensures
        r == (k@ == lbl_main_executable()),
{
    if k.len() != 15 {
        proof {
            if k@ == lbl_main_executable() {
                assert(k@.len() == 15);
            }
        }
        return false;
    }
    if k[0] == 'm' && k[1] == 'a' && k[2] == 'i' && k[3] == 'n' && k[4] == '_' && k[5] == 'e' && k[6] == 'x' && k[7] == 'e' && k[8] == 'c' && k[9] == 'u' && k[10] == 't' && k[11] == 'a' && k[12] == 'b' && k[13] == 'l' && k[14] == 'e' {
        proof {
            assert(k@ =~= lbl_main_executable());
        }
        true
    } else {
        proof {
            if k@ == lbl_main_executable() {
                assert(k@[0] == lbl_main_executable()[0]);
                assert(k@[1] == lbl_main_executable()[1]);
                assert(k@[2] == lbl_main_executable()[2]);
                assert(k@[3] == lbl_main_executable()[3]);
                assert(k@[4] == lbl_main_executable()[4]);
                assert(k@[5] == lbl_main_executable()[5]);
                assert(k@[6] == lbl_main_executable()[6]);
                assert(k@[7] == lbl_main_executable()[7]);
                assert(k@[8] == lbl_main_executable()[8]);
                assert(k@[9] == lbl_main_executable()[9]);
                assert(k@[10] == lbl_main_executable()[10]);
                assert(k@[11] == lbl_main_executable()[11]);
                assert(k@[12] == lbl_main_executable()[12]);
                assert(k@[13] == lbl_main_executable()[13]);
                assert(k@[14] == lbl_main_executable()[14]);
            }
        }
        false
    }
}

/// Is this key the `use_prerelease` label?
fn key_is_use_prerelease(k: &Vec<char>) -> (r: bool)
    ensures
        r == (k@ == lbl_use_prerelease()),
{
    if k.len() != 14 {
        proof {
            if k@ == lbl_use_prerelease() {
                assert(k@.len() == 14);
            }
        }
        return false;
    }
    if k[0] == 'u' && k[1] == 's' && k[2] == 'e' && k[3] == '_' && k[4] == 'p' && k[5] == 'r' && k[6] == 'e' && k[7] == 'r' && k[8] == 'e' && k[9] == 'l' && k[10] == 'e' && k[11] == 'a' && k[12] == 's' && k[13] == 'e' {
        proof {
            assert(k@ =~= lbl_use_prerelease());
        }
        true
    } else {
        proof {
            if k@ == lbl_use_prerelease() {
                assert(k@[0] == lbl_use_prerelease()[0]);
                assert(k@[1] == lbl_use_prerelease()[1]);
                assert(k@[2] == lbl_use_prerelease()[2]);
                assert(k@[3] == lbl_use_prerelease()[3]);
                assert(k@[4] == lbl_use_prerelease()[4]);
                assert(k@[5] == lbl_use_prerelease()[5]);
                assert(k@[6] == lbl_use_prerelease()[6]);
                assert(k@[7] == lbl_use_prerelease()[7]);
                assert(k@[8] == lbl_use_prerelease()[8]);
                assert(k@[9] == lbl_use_prerelease()[9]);
                assert(k@[10] == lbl_use_prerelease()[10]);
                assert(k@[11] == lbl_use_prerelease()[11]);
                assert(k@[12] == lbl_use_prerelease()[12]);
                assert(k@[13] == lbl_use_prerelease()[13]);
            }
        }
        false
    }
}

/// Is this key the `products` label?
fn key_is_products(k: &Vec<char>) -> (r: bool)
    ensures
        r == (k@ == lbl_products()),
{
    if k.len() != 8 {
        proof {
            if k@ == lbl_products() {
                assert(k@.len() == 8);
            }
        }
        return false;
    }
    if k[0] == 'p' && k[1] == 'r' && k[2] == 'o' && k[3] == 'd' && k[4] == 'u' && k[5] == 'c' && k[6] == 't' && k[7] == 's' {
        proof {
            assert(k@ =~= lbl_products());
        }
        true
    } else {
        proof {
            if k@ == lbl_products() {
                assert(k@[0] == lbl_products()[0]);
                assert(k@[1] == lbl_products()[1]);
                assert(k@[2] == lbl_products()[2]);
                assert(k@[3] == lbl_products()[3]);
                assert(k@[4] == lbl_products()[4]);
                assert(k@[5] == lbl_products()[5]);
                assert(k@[6] == lbl_products()[6]);
                assert(k@[7] == lbl_products()[7]);
            }
        }
        false
    }
}

} // verus!

verus! {

/// Parse a record object.
fn parse_record_exec(s: &Vec<char>, i: usize) -> (r: Option<(InstalledProduct, usize)>)
    requires
        i <= s@.len(),
    ensures
        match r {
            Some(p) => pj_record(s@, i as int) == Some((p.0@, p.1 as int)) && i < p.1
                <= s@.len(),
            None => pj_record(s@, i as int) is None,
        },
{
    let j = skip_ws_exec(s, i);
    if !(j < s.len() && s[j] == '{') {
        return None;
    }
    let j1 = skip_ws_exec(s, j + 1);
    if j1 < s.len() && s[j1] == '}' {
        return Some((InstalledProduct::new_default(), j1 + 1));
    }
    let ghost start = (j + 1) as int;
    let mut acc = InstalledProduct::new_default();
    let mut cur: usize = j + 1;
    loop
        invariant
            i < cur <= s@.len(),
            pj_record(s@, i as int) == pj_members(s@, start, spec_default_record()),
            pj_members(s@, start, spec_default_record()) == pj_members(s@, cur as int, acc@),
        decreases s@.len() - cur,
    {
        let ghost acc0 = acc@;
        let k = skip_ws_exec(s, cur);
        let (key, j1m) = match parse_string(s, k) {
            Some(p) => p,
            None => {
                return None;
            },
        };
        let j2 = skip_ws_exec(s, j1m);
        if !(j2 < s.len() && s[j2] == ':') {
            return None;
        }
        let j3 = skip_ws_exec(s, j2 + 1);
        let j4: usize;
        if key_is_name(&key) {
            match parse_string(s, j3) {
                Some((v, jv)) => {
                    acc.name = strutil::chars_to_string(&v);
                    j4 = jv;
                },
                None => {
                    return None;
                },
            }
        } else if key_is_description(&key) {
            match parse_string(s, j3) {
                Some((v, jv)) => {
                    acc.description = strutil::chars_to_string(&v);
                    j4 = jv;
                },
                None => {
                    return None;
                },
            }
        } else if key_is_version(&key) {
            match parse_opt_string(s, j3) {
                Some((v, jv)) => {
                    acc.version = match v {
                        Some(t) => Some(strutil::chars_to_string(&t)),
                        None => None,
                    };
                    j4 = jv;
                },
                None => {
                    return None;
                },
            }
        } else if key_is_ewd(&key) {
            match parse_opt_string(s, j3) {
                Some((v, jv)) => {
                    acc.execute_working_directory = match v {
                        Some(t) => Some(strutil::chars_to_string(&t)),
                        None => None,
                    };
                    j4 = jv;
                },
                None => {
                    return None;
                },
            }
        } else if key_is_main_executable(&key) {
            match parse_opt_string(s, j3) {
                Some((v, jv)) => {
                    acc.main_executable = match v {
                        Some(t) => Some(strutil::chars_to_string(&t)),
                        None => None,
                    };
                    j4 = jv;
                },
                None => {
                    return None;
                },
            }
        } else if key_is_use_prerelease(&key) {
            match parse_bool(s, j3) {
                Some((v, jv)) => {
                    acc.use_prerelease = v;
                    j4 = jv;
                },
                None => {
                    return None;
                },
            }
        } else {
            match skip_primitive_exec(s, j3) {
                Some(jv) => {
                    j4 = jv;
                },
                None => {
                    return None;
                },
            }
        }
        proof {
            assert(pj_members_step(s@, j3 as int, acc0, key@) == Some((acc@, j4 as int)));
        }
        let j5 = skip_ws_exec(s, j4);
        if j5 < s.len() && s[j5] == ',' {
            cur = j5 + 1;
        } else if j5 < s.len() && s[j5] == '}' {
            proof {
                assert(pj_members(s@, start, spec_default_record()) == Some((acc@, j5 + 1)));
            }
            return Some((acc, j5 + 1));
        } else {
            return None;
        }
    }
}

/// The view of an entry list.
pub open spec fn entries_view(v: Seq<(String, InstalledProduct)>) -> Seq<
    (Seq<char>, InstalledProductView),
> {
    v.map_values(|p: (String, InstalledProduct)| (p.0@, p.1@))
}

/// Parse the members of the `products` object (after its `{`).
fn parse_prod_members(s: &Vec<char>, i: usize) -> (r: Option<
    (Vec<(String, InstalledProduct)>, usize),
>)
    requires
        i <= s@.len(),
    ensures
        match r {
            Some(p) => pj_prod_members(s@, i as int, Seq::empty()) == Some(
                (entries_view(p.0@), p.1 as int),
            ) && p.1 <= s@.len(),
            None => pj_prod_members(s@, i as int, Seq::empty()) is None,
        },
{
    let mut out: Vec<(String, InstalledProduct)> = Vec::new();
    let mut cur: usize = i;
    proof {
        assert(entries_view(out@) =~= Seq::<(Seq<char>, InstalledProductView)>::empty());
    }
    loop
        invariant
            cur <= s@.len(),
            pj_prod_members(s@, i as int, Seq::empty()) == pj_prod_members(
                s@,
                cur as int,
                entries_view(out@),
            ),
        decreases s@.len() - cur,
    {
        let ghost acc0 = entries_view(out@);
        let k = skip_ws_exec(s, cur);
        let (id, j1) = match parse_string(s, k) {
            Some(p) => p,
            None => {
                return None;
            },
        };
        let j2 = skip_ws_exec(s, j1);
        if !(j2 < s.len() && s[j2] == ':') {
            return None;
        }
        let (rec, j4) = match parse_record_exec(s, j2 + 1) {
            Some(p) => p,
            None => {
                return None;
            },
        };
        let id_string = strutil::chars_to_string(&id);
        let ghost pushed = (id_string@, rec@);
        out.push((id_string, rec));
        proof {
            assert(entries_view(out@) =~= acc0.push(pushed));
        }
        let j5 = skip_ws_exec(s, j4);
        if j5 < s.len() && s[j5] == ',' {
            cur = j5 + 1;
        } else if j5 < s.len() && s[j5] == '}' {
            return Some((out, j5 + 1));
        } else {
            return None;
        }
    }
}

} // verus!

verus! {

use crate::install::{spec_find, spec_get};

/// Build a store from parsed entries, refusing duplicate ids.
fn build_install(entries: &Vec<(String, InstalledProduct)>) -> (r: Option<Install>)
    ensures
        match r {
            Some(inst) => inst@ == entries_view(entries@) && inst.wf() && !spec_has_dup(
                entries_view(entries@),
            ),
            None => spec_has_dup(entries_view(entries@)),
        },
{
    let ghost ev = entries_view(entries@);
    let mut inst = Install::new();
    let mut k: usize = 0;
    proof {
        assert(inst@ =~= ev.take(0));
    }
    while k < entries.len()
        invariant
            ev == entries_view(entries@),
            ev.len() == entries@.len(),
            k <= ev.len(),
            inst@ == ev.take(k as int),
            inst.wf(),
        decreases ev.len() - k,
    {
        proof {
            assert(ev[k as int] == (entries@[k as int].0@, entries@[k as int].1@));
        }
        let id = &entries[k].0;
        match inst.get(id.as_str()) {
            Some(_) => {
                proof {
                    let fi = spec_find(inst@, id@);
                    assert(fi is Some);
                    crate::install::lemma_spec_find_some(inst@, id@);
                    let a = fi.unwrap();
                    // a matching entry sits in the prefix: a duplicate
                    assert(inst@[a].0 == id@);
                    assert(ev[a] == inst@[a]);
                    assert(0 <= a < k);
                    assert((ev[a]).0 == (ev[k as int]).0);
                    assert(spec_has_dup(ev));
                }
                return None;
            },
            None => {
                proof {
                    lemma_spec_find_of_get_none(inst@, id@);
                }
                let rec_copy = entries[k].1.duplicate();
                let slot = inst.get_mut_product_or_default(id.clone());
                *slot = rec_copy;
                k = k + 1;
                proof {
                    assert(inst@ =~= ev.take(k as int));
                }
            },
        }
    }
    proof {
        assert(ev.take(ev.len() as int) =~= ev);
    }
    Some(inst)
}

/// `spec_get` and `spec_find` agree on absence.
proof fn lemma_spec_find_of_get_none(
    s: Seq<(Seq<char>, InstalledProductView)>,
    id: Seq<char>,
)
    ensures
        spec_get(s, id) is None <==> spec_find(s, id) is None,
{
}

/// Parse a store document. Yields nothing when the text is not a
/// well-formed document of this format, or names a product twice.
pub fn parse_install(text: &Vec<char>) -> (r: Option<Install>)
    ensures
        match r {
            Some(inst) => pj_install(text@) matches Some(entries) && inst@ == entries
                && inst.wf() && !spec_has_dup(entries),
            None => pj_install(text@) is None || (pj_install(text@) matches Some(entries)
                && spec_has_dup(entries)),
        },
{
    let s = text;
    let i0 = skip_ws_exec(s, 0);
    if !(i0 < s.len() && s[i0] == '{') {
        return None;
    }
    let i1 = skip_ws_exec(s, i0 + 1);
    let (key, j1) = match parse_string(s, i1) {
        Some(p) => p,
        None => {
            return None;
        },
    };
    if !key_is_products(&key) {
        return None;
    }
    let j2 = skip_ws_exec(s, j1);
    if !(j2 < s.len() && s[j2] == ':') {
        return None;
    }
    // the products object
    let j = skip_ws_exec(s, j2 + 1);
    if !(j < s.len() && s[j] == '{') {
        return None;
    }
    let j1p = skip_ws_exec(s, j + 1);
    let (entries, j4): (Vec<(String, InstalledProduct)>, usize);
    if j1p < s.len() && s[j1p] == '}' {
        entries = Vec::new();
        j4 = j1p + 1;
        proof {
            assert(entries_view(entries@) =~= Seq::<(Seq<char>, InstalledProductView)>::empty());
        }
    } else {
        match parse_prod_members(s, j + 1) {
            Some(p) => {
                entries = p.0;
                j4 = p.1;
            },
            None => {
                return None;
            },
        }
    }
    let j5 = skip_ws_exec(s, j4);
    if !(j5 < s.len() && s[j5] == '}') {
        return None;
    }
    let j6 = skip_ws_exec(s, j5 + 1);
    if j6 != s.len() {
        return None;
    }
    proof {
        assert(pj_install(s@) == Some(entries_view(entries@)));
    }
    build_install(&entries)
}

} // verus!

verus! {

// ---------------------------------------------------------------------------
// The round trip: parsing what was rendered
// ---------------------------------------------------------------------------

/// Split a subrange equality over a concatenation.
proof fn lemma_subrange_concat(s: Seq<char>, i: int, a: Seq<char>, b: Seq<char>)
    requires
        0 <= i,
        i + a.len() + b.len() <= s.len(),
        s.subrange(i, i + a.len() + b.len()) == a + b,
    ensures
        s.subrange(i, i + a.len()) == a,
        s.subrange(i + a.len(), i + a.len() + b.len()) == b,
{
    let whole = s.subrange(i, i + a.len() + b.len());
    assert forall|k: int| 0 <= k < a.len() implies s.subrange(i, i + a.len())[k] == a[k] by {
        assert(whole[k] == s[i + k]);
        assert(whole[k] == (a + b)[k]);
        assert(s.subrange(i, i + a.len())[k] == s[i + k]);
    }
    assert(s.subrange(i, i + a.len()) =~= a);
    assert forall|k: int| 0 <= k < b.len() implies s.subrange(
        i + a.len(),
        i + a.len() + b.len(),
    )[k] == b[k] by {
        assert(whole[a.len() + k] == s[i + a.len() + k]);
        assert(whole[a.len() + k] == (a + b)[a.len() + k]);
        assert(s.subrange(i + a.len(), i + a.len() + b.len())[k] == s[i + a.len() + k]);
    }
    assert(s.subrange(i + a.len(), i + a.len() + b.len()) =~= b);
}

/// The characters a subrange equality pins down.
proof fn lemma_subrange_chars(s: Seq<char>, i: int, a: Seq<char>)
    requires
        0 <= i,
        i + a.len() <= s.len(),
        s.subrange(i, i + a.len()) == a,
    ensures
        forall|k: int| 0 <= k < a.len() ==> s[i + k] == #[trigger] a[k],
{
    assert forall|k: int| 0 <= k < a.len() implies s[i + k] == #[trigger] a[k] by {
        assert(s.subrange(i, i + a.len())[k] == s[i + k]);
    }
}

proof fn lemma_hex_roundtrip(n: int)
    requires
        0 <= n < 16,
    ensures
        hex_val(hex_digit(n)) == Some(n),
{
}

/// Whitespace skipping does not move off a non-whitespace character.
proof fn lemma_skip_ws_fixed(s: Seq<char>, i: int)
    requires
        0 <= i < s.len() ==> !is_ws(s[i]),
    ensures
        skip_ws(s, i) == i,
{
}

/// Parsing the string body that `escape_str` wrote gives the text back.
#[verifier::rlimit(60)]
proof fn lemma_parse_escaped(s: Seq<char>, i: int, x: Seq<char>)
    requires
        0 <= i,
        i + escape_str(x).len() < s.len(),
        s.subrange(i, i + escape_str(x).len()) == escape_str(x),
        s[i + escape_str(x).len()] == '"',
    ensures
        pj_string_body(s, i) == Some((x, i + escape_str(x).len() + 1)),
    decreases x.len(),
{
    if x.len() == 0 {
        assert(escape_str(x) == Seq::<char>::empty());
        assert(s[i] == '"');
    } else {
        let c = x[0];
        let ec = escape_char(c);
        let tail = escape_str(x.drop_first());
        assert(escape_str(x) == ec + tail);
        lemma_subrange_concat(s, i, ec, tail);
        lemma_subrange_chars(s, i, ec);
        let i2 = i + ec.len();
        lemma_parse_escaped(s, i2, x.drop_first());
        assert(seq![c] + x.drop_first() =~= x);
        if c == '"' {
            assert(s[i + 0] == '\\' && s[i + 1] == '"');
            assert(s[i] == '\\');
            assert(pj_string_body(s, i) == pj_cons('"', pj_string_body(s, i + 2)));
        } else if c == '\\' {
            assert(s[i + 0] == '\\' && s[i + 1] == '\\');
            assert(s[i] == '\\');
            assert(pj_string_body(s, i) == pj_cons('\\', pj_string_body(s, i + 2)));
        } else if (c as u32) < 32 {
            let cu = c as u32 as int;
            assert(s[i + 0] == '\\' && s[i + 1] == 'u');
            assert(s[i] == '\\');
            assert(s[i + 2] == '0' && s[i + 3] == '0');
            assert(s[i + 4] == hex_digit(cu / 16) && s[i + 5] == hex_digit(cu % 16));
            lemma_hex_roundtrip(cu / 16);
            lemma_hex_roundtrip(cu % 16);
            assert(hex_val(s[i + 2]) == Some(0int));
            assert(hex_val(s[i + 3]) == Some(0int));
            let v = 0 * 4096 + 0 * 256 + (cu / 16) * 16 + cu % 16;
            assert(v == cu);
            vstd::utf8::char_u32_cast(c, c as u32);
            assert(char_of(v) == c);
            assert(pj_string_body(s, i) == pj_cons(c, pj_string_body(s, i + 6)));
        } else {
            assert(s[i + 0] == c);
            assert(s[i] == c);
            assert(pj_string_body(s, i) == pj_cons(c, pj_string_body(s, i + 1)));
        }
    }
}

/// Parsing the string token that `rj_string` wrote gives the text back.
proof fn lemma_parse_string_of_render(s: Seq<char>, i: int, x: Seq<char>)
    requires
        0 <= i,
        i + rj_string(x).len() <= s.len(),
        s.subrange(i, i + rj_string(x).len()) == rj_string(x),
    ensures
        pj_string(s, i) == Some((x, i + rj_string(x).len())),
{
    let q: Seq<char> = seq!['"'];
    let e = escape_str(x);
    assert(rj_string(x) == q + e + q);
    lemma_subrange_concat(s, i, q + e, q);
    lemma_subrange_concat(s, i, q, e);
    assert(s[i] == (q + e + q)[0]);
    assert(s.subrange(i + 1 + e.len(), i + 1 + e.len() + 1) == q);
    assert(s[i + 1 + e.len()] == '"');
    lemma_parse_escaped(s, i + 1, x);
}

} // verus!

verus! {

/// A character that is written as itself inside a JSON string, and is
/// not whitespace.
pub open spec fn is_plain_char(c: char) -> bool {
    c != '"' && c != '\\' && c as u32 >= 32
}

proof fn lemma_escape_plain(x: Seq<char>)
    requires
        forall|k: int| 0 <= k < x.len() ==> is_plain_char(#[trigger] x[k]),
    ensures
        escape_str(x) == x,
    decreases x.len(),
{
    if x.len() == 0 {
        assert(escape_str(x) =~= x);
    } else {
        assert(is_plain_char(x[0]));
        lemma_escape_plain(x.drop_first());
        assert(escape_char(x[0]) == seq![x[0]]);
        assert(escape_str(x) =~= x);
    }
}

/// Parse the token that `rj_opt_string` wrote.
proof fn lemma_parse_opt_of_render(s: Seq<char>, i: int, o: Option<Seq<char>>)
    requires
        0 <= i,
        i + rj_opt_string(o).len() <= s.len(),
        s.subrange(i, i + rj_opt_string(o).len()) == rj_opt_string(o),
    ensures
        pj_opt_string(s, i) == Some((o, i + rj_opt_string(o).len())),
{
    match o {
        Some(x) => {
            lemma_subrange_chars(s, i, rj_string(x));
            assert(s[i + 0] == rj_string(x)[0]);
            assert(s[i] == '"');
            lemma_parse_string_of_render(s, i, x);
        },
        None => {
            lemma_subrange_chars(s, i, rj_null());
            assert(s[i + 0] == rj_null()[0]);
            assert(s[i] == 'n');
        },
    }
}

/// Parse the token that `rj_bool` wrote.
proof fn lemma_parse_bool_of_render(s: Seq<char>, i: int, b: bool)
    requires
        0 <= i,
        i + rj_bool(b).len() <= s.len(),
        s.subrange(i, i + rj_bool(b).len()) == rj_bool(b),
    ensures
        pj_bool(s, i) == Some((b, i + rj_bool(b).len())),
{
    lemma_subrange_chars(s, i, rj_bool(b));
    if b {
    } else {
        assert(s[i + 0] == 'f');
        if i + 4 <= s.len() && s.subrange(i, i + 4) == rj_bool(true) {
            assert(s.subrange(i, i + 4)[0] == s[i + 0]);
            assert(false);
        }
    }
}

/// Parse the key token that `rj_key` wrote: the label text and the colon
/// after it.
proof fn lemma_parse_key(s: Seq<char>, i: int, label: Seq<char>)
    requires
        0 <= i,
        i + label.len() + 3 <= s.len(),
        s.subrange(i, i + label.len() + 3) == rj_key(label),
        forall|k: int| 0 <= k < label.len() ==> is_plain_char(#[trigger] label[k]),
    ensures
        pj_string(s, i) == Some((label, i + label.len() + 2)),
        s[i + label.len() + 2] == ':',
        s[i] == '"',
    {
    lemma_escape_plain(label);
    lemma_subrange_chars(s, i, rj_key(label));
    assert(s[i + 0] == rj_key(label)[0]);
    assert(s[i] == '"');
    assert(s[i + (label.len() as int + 2)] == rj_key(label)[label.len() as int + 2]);
    assert(rj_key(label)[label.len() as int + 2] == ':');
    assert forall|k: int| 0 <= k < rj_string(label).len() implies s.subrange(
        i,
        i + rj_string(label).len(),
    )[k] == rj_string(label)[k] by {
        assert(s.subrange(i, i + rj_string(label).len())[k] == s[i + k]);
        assert(s[i + k] == rj_key(label)[k]);
        assert(rj_string(label).len() == label.len() + 2);
        if k == 0 {
            assert(rj_string(label)[0] == '"' && rj_key(label)[0] == '"');
        } else if k <= label.len() {
            assert(rj_string(label)[k] == label[k - 1]);
            assert(rj_key(label)[k] == label[k - 1]);
        } else {
            assert(rj_string(label)[k] == '"');
            assert(rj_key(label)[k] == '"');
        }
    }
    assert(s.subrange(i, i + rj_string(label).len()) =~= rj_string(label));
    lemma_parse_string_of_render(s, i, label);
}

/// Every record label consists of plain characters.
proof fn lemma_labels_plain()
    ensures
        forall|k: int| 0 <= k < lbl_name().len() ==> is_plain_char(#[trigger] lbl_name()[k]),
        forall|k: int|
            0 <= k < lbl_description().len() ==> is_plain_char(#[trigger] lbl_description()[k]),
        forall|k: int| 0 <= k < lbl_version().len() ==> is_plain_char(#[trigger] lbl_version()[k]),
        forall|k: int| 0 <= k < lbl_ewd().len() ==> is_plain_char(#[trigger] lbl_ewd()[k]),
        forall|k: int|
            0 <= k < lbl_main_executable().len() ==> is_plain_char(
                #[trigger] lbl_main_executable()[k],
            ),
        forall|k: int|
            0 <= k < lbl_use_prerelease().len() ==> is_plain_char(
                #[trigger] lbl_use_prerelease()[k],
            ),
        forall|k: int|
            0 <= k < lbl_products().len() ==> is_plain_char(#[trigger] lbl_products()[k]),
{
}

} // verus!


verus! {

/// The segments that `rj_record` lays out, each pinned in `s`.
#[verifier::rlimit(100)]
proof fn lemma_record_segments(s: Seq<char>, i: int, r: InstalledProductView)
    requires
        0 <= i,
        i + rj_record(r).len() <= s.len(),
        s.subrange(i, i + rj_record(r).len()) == rj_record(r),
    ensures
        s.subrange(i, i + seq!['{'].len()) == seq!['{'],
        s.subrange(i + seq!['{'].len(), i + seq!['{'].len() + rj_key(lbl_name()).len()) == rj_key(lbl_name()),
        s.subrange(i + seq!['{'].len() + rj_key(lbl_name()).len(), i + seq!['{'].len() + rj_key(lbl_name()).len() + rj_string(r.name).len()) == rj_string(r.name),
        s.subrange(i + seq!['{'].len() + rj_key(lbl_name()).len() + rj_string(r.name).len(), i + seq!['{'].len() + rj_key(lbl_name()).len() + rj_string(r.name).len() + seq![','].len()) == seq![','],
        s.subrange(i + seq!['{'].len() + rj_key(lbl_name()).len() + rj_string(r.name).len() + seq![','].len(), i + seq!['{'].len() + rj_key(lbl_name()).len() + rj_string(r.name).len() + seq![','].len() + rj_key(lbl_description()).len()) == rj_key(lbl_description()),
        s.subrange(i + seq!['{'].len() + rj_key(lbl_name()).len() + rj_string(r.name).len() + seq![','].len() + rj_key(lbl_description()).len(), i + seq!['{'].len() + rj_key(lbl_name()).len() + rj_string(r.name).len() + seq![','].len() + rj_key(lbl_description()).len() + rj_string(r.description).len()) == rj_string(r.description),
        s.subrange(i + seq!['{'].len() + rj_key(lbl_name()).len() + rj_string(r.name).len() + seq![','].len() + rj_key(lbl_description()).len() + rj_string(r.description).len(), i + seq!['{'].len() + rj_key(lbl_name()).len() + rj_string(r.name).len() + seq![','].len() + rj_key(lbl_description()).len() + rj_string(r.description).len() + seq![','].len()) == seq![','],
        s.subrange(i + seq!['{'].len() + rj_key(lbl_name()).len() + rj_string(r.name).len() + seq![','].len() + rj_key(lbl_description()).len() + rj_string(r.description).len() + seq![','].len(), i + seq!['{'].len() + rj_key(lbl_name()).len() + rj_string(r.name).len() + seq![','].len() + rj_key(lbl_description()).len() + rj_string(r.description).len() + seq![','].len() + rj_key(lbl_version()).len()) == rj_key(lbl_version()),
        s.subrange(i + seq!['{'].len() + rj_key(lbl_name()).len() + rj_string(r.name).len() + seq![','].len() + rj_key(lbl_description()).len() + rj_string(r.description).len() + seq![','].len() + rj_key(lbl_version()).len(), i + seq!['{'].len() + rj_key(lbl_name()).len() + rj_string(r.name).len() + seq![','].len() + rj_key(lbl_description()).len() + rj_string(r.description).len() + seq![','].len() + rj_key(lbl_version()).len() + rj_opt_string(r.version).len()) == rj_opt_string(r.version),
        s.subrange(i + seq!['{'].len() + rj_key(lbl_name()).len() + rj_string(r.name).len() + seq![','].len() + rj_key(lbl_description()).len() + rj_string(r.description).len() + seq![','].len() + rj_key(lbl_version()).len() + rj_opt_string(r.version).len(), i + seq!['{'].len() + rj_key(lbl_name()).len() + rj_string(r.name).len() + seq![','].len() + rj_key(lbl_description()).len() + rj_string(r.description).len() + seq![','].len() + rj_key(lbl_version()).len() + rj_opt_string(r.version).len() + seq![','].len()) == seq![','],
        s.subrange(i + seq!['{'].len() + rj_key(lbl_name()).len() + rj_string(r.name).len() + seq![','].len() + rj_key(lbl_description()).len() + rj_string(r.description).len() + seq![','].len() + rj_key(lbl_version()).len() + rj_opt_string(r.version).len() + seq![','].len(), i + seq!['{'].len() + rj_key(lbl_name()).len() + rj_string(r.name).len() + seq![','].len() + rj_key(lbl_description()).len() + rj_string(r.description).len() + seq![','].len() + rj_key(lbl_version()).len() + rj_opt_string(r.version).len() + seq![','].len() + rj_key(lbl_ewd()).len()) == rj_key(lbl_ewd()),
        s.subrange(i + seq!['{'].len() + rj_key(lbl_name()).len() + rj_string(r.name).len() + seq![','].len() + rj_key(lbl_description()).len() + rj_string(r.description).len() + seq![','].len() + rj_key(lbl_version()).len() + rj_opt_string(r.version).len() + seq![','].len() + rj_key(lbl_ewd()).len(), i + seq!['{'].len() + rj_key(lbl_name()).len() + rj_string(r.name).len() + seq![','].len() + rj_key(lbl_description()).len() + rj_string(r.description).len() + seq![','].len() + rj_key(lbl_version()).len() + rj_opt_string(r.version).len() + seq![','].len() + rj_key(lbl_ewd()).len() + rj_opt_string(r.execute_working_directory).len()) == rj_opt_string(r.execute_working_directory),
        s.subrange(i + seq!['{'].len() + rj_key(lbl_name()).len() + rj_string(r.name).len() + seq![','].len() + rj_key(lbl_description()).len() + rj_string(r.description).len() + seq![','].len() + rj_key(lbl_version()).len() + rj_opt_string(r.version).len() + seq![','].len() + rj_key(lbl_ewd()).len() + rj_opt_string(r.execute_working_directory).len(), i + seq!['{'].len() + rj_key(lbl_name()).len() + rj_string(r.name).len() + seq![','].len() + rj_key(lbl_description()).len() + rj_string(r.description).len() + seq![','].len() + rj_key(lbl_version()).len() + rj_opt_string(r.version).len() + seq![','].len() + rj_key(lbl_ewd()).len() + rj_opt_string(r.execute_working_directory).len() + seq![','].len()) == seq![','],
        s.subrange(i + seq!['{'].len() + rj_key(lbl_name()).len() + rj_string(r.name).len() + seq![','].len() + rj_key(lbl_description()).len() + rj_string(r.description).len() + seq![','].len() + rj_key(lbl_version()).len() + rj_opt_string(r.version).len() + seq![','].len() + rj_key(lbl_ewd()).len() + rj_opt_string(r.execute_working_directory).len() + seq![','].len(), i + seq!['{'].len() + rj_key(lbl_name()).len() + rj_string(r.name).len() + seq![','].len() + rj_key(lbl_description()).len() + rj_string(r.description).len() + seq![','].len() + rj_key(lbl_version()).len() + rj_opt_string(r.version).len() + seq![','].len() + rj_key(lbl_ewd()).len() + rj_opt_string(r.execute_working_directory).len() + seq![','].len() + rj_key(lbl_main_executable()).len()) == rj_key(lbl_main_executable()),
        s.subrange(i + seq!['{'].len() + rj_key(lbl_name()).len() + rj_string(r.name).len() + seq![','].len() + rj_key(lbl_description()).len() + rj_string(r.description).len() + seq![','].len() + rj_key(lbl_version()).len() + rj_opt_string(r.version).len() + seq![','].len() + rj_key(lbl_ewd()).len() + rj_opt_string(r.execute_working_directory).len() + seq![','].len() + rj_key(lbl_main_executable()).len(), i + seq!['{'].len() + rj_key(lbl_name()).len() + rj_string(r.name).len() + seq![','].len() + rj_key(lbl_description()).len() + rj_string(r.description).len() + seq![','].len() + rj_key(lbl_version()).len() + rj_opt_string(r.version).len() + seq![','].len() + rj_key(lbl_ewd()).len() + rj_opt_string(r.execute_working_directory).len() + seq![','].len() + rj_key(lbl_main_executable()).len() + rj_opt_string(r.main_executable).len()) == rj_opt_string(r.main_executable),
        s.subrange(i + seq!['{'].len() + rj_key(lbl_name()).len() + rj_string(r.name).len() + seq![','].len() + rj_key(lbl_description()).len() + rj_string(r.description).len() + seq![','].len() + rj_key(lbl_version()).len() + rj_opt_string(r.version).len() + seq![','].len() + rj_key(lbl_ewd()).len() + rj_opt_string(r.execute_working_directory).len() + seq![','].len() + rj_key(lbl_main_executable()).len() + rj_opt_string(r.main_executable).len(), i + seq!['{'].len() + rj_key(lbl_name()).len() + rj_string(r.name).len() + seq![','].len() + rj_key(lbl_description()).len() + rj_string(r.description).len() + seq![','].len() + rj_key(lbl_version()).len() + rj_opt_string(r.version).len() + seq![','].len() + rj_key(lbl_ewd()).len() + rj_opt_string(r.execute_working_directory).len() + seq![','].len() + rj_key(lbl_main_executable()).len() + rj_opt_string(r.main_executable).len() + seq![','].len()) == seq![','],
        s.subrange(i + seq!['{'].len() + rj_key(lbl_name()).len() + rj_string(r.name).len() + seq![','].len() + rj_key(lbl_description()).len() + rj_string(r.description).len() + seq![','].len() + rj_key(lbl_version()).len() + rj_opt_string(r.version).len() + seq![','].len() + rj_key(lbl_ewd()).len() + rj_opt_string(r.execute_working_directory).len() + seq![','].len() + rj_key(lbl_main_executable()).len() + rj_opt_string(r.main_executable).len() + seq![','].len(), i + seq!['{'].len() + rj_key(lbl_name()).len() + rj_string(r.name).len() + seq![','].len() + rj_key(lbl_description()).len() + rj_string(r.description).len() + seq![','].len() + rj_key(lbl_version()).len() + rj_opt_string(r.version).len() + seq![','].len() + rj_key(lbl_ewd()).len() + rj_opt_string(r.execute_working_directory).len() + seq![','].len() + rj_key(lbl_main_executable()).len() + rj_opt_string(r.main_executable).len() + seq![','].len() + rj_key(lbl_use_prerelease()).len()) == rj_key(lbl_use_prerelease()),
        s.subrange(i + seq!['{'].len() + rj_key(lbl_name()).len() + rj_string(r.name).len() + seq![','].len() + rj_key(lbl_description()).len() + rj_string(r.description).len() + seq![','].len() + rj_key(lbl_version()).len() + rj_opt_string(r.version).len() + seq![','].len() + rj_key(lbl_ewd()).len() + rj_opt_string(r.execute_working_directory).len() + seq![','].len() + rj_key(lbl_main_executable()).len() + rj_opt_string(r.main_executable).len() + seq![','].len() + rj_key(lbl_use_prerelease()).len(), i + seq!['{'].len() + rj_key(lbl_name()).len() + rj_string(r.name).len() + seq![','].len() + rj_key(lbl_description()).len() + rj_string(r.description).len() + seq![','].len() + rj_key(lbl_version()).len() + rj_opt_string(r.version).len() + seq![','].len() + rj_key(lbl_ewd()).len() + rj_opt_string(r.execute_working_directory).len() + seq![','].len() + rj_key(lbl_main_executable()).len() + rj_opt_string(r.main_executable).len() + seq![','].len() + rj_key(lbl_use_prerelease()).len() + rj_bool(r.use_prerelease).len()) == rj_bool(r.use_prerelease),
        s.subrange(i + seq!['{'].len() + rj_key(lbl_name()).len() + rj_string(r.name).len() + seq![','].len() + rj_key(lbl_description()).len() + rj_string(r.description).len() + seq![','].len() + rj_key(lbl_version()).len() + rj_opt_string(r.version).len() + seq![','].len() + rj_key(lbl_ewd()).len() + rj_opt_string(r.execute_working_directory).len() + seq![','].len() + rj_key(lbl_main_executable()).len() + rj_opt_string(r.main_executable).len() + seq![','].len() + rj_key(lbl_use_prerelease()).len() + rj_bool(r.use_prerelease).len(), i + seq!['{'].len() + rj_key(lbl_name()).len() + rj_string(r.name).len() + seq![','].len() + rj_key(lbl_description()).len() + rj_string(r.description).len() + seq![','].len() + rj_key(lbl_version()).len() + rj_opt_string(r.version).len() + seq![','].len() + rj_key(lbl_ewd()).len() + rj_opt_string(r.execute_working_directory).len() + seq![','].len() + rj_key(lbl_main_executable()).len() + rj_opt_string(r.main_executable).len() + seq![','].len() + rj_key(lbl_use_prerelease()).len() + rj_bool(r.use_prerelease).len() + seq!['}'].len()) == seq!['}'],
        rj_record(r).len() == seq!['{'].len() + rj_key(lbl_name()).len() + rj_string(r.name).len() + seq![','].len() + rj_key(lbl_description()).len() + rj_string(r.description).len() + seq![','].len() + rj_key(lbl_version()).len() + rj_opt_string(r.version).len() + seq![','].len() + rj_key(lbl_ewd()).len() + rj_opt_string(r.execute_working_directory).len() + seq![','].len() + rj_key(lbl_main_executable()).len() + rj_opt_string(r.main_executable).len() + seq![','].len() + rj_key(lbl_use_prerelease()).len() + rj_bool(r.use_prerelease).len() + seq!['}'].len(),
        s[i] == '{',
        s[i + seq!['{'].len() + rj_key(lbl_name()).len() + rj_string(r.name).len()] == ',',
        s[i + seq!['{'].len() + rj_key(lbl_name()).len() + rj_string(r.name).len() + seq![','].len() + rj_key(lbl_description()).len() + rj_string(r.description).len()] == ',',
        s[i + seq!['{'].len() + rj_key(lbl_name()).len() + rj_string(r.name).len() + seq![','].len() + rj_key(lbl_description()).len() + rj_string(r.description).len() + seq![','].len() + rj_key(lbl_version()).len() + rj_opt_string(r.version).len()] == ',',
        s[i + seq!['{'].len() + rj_key(lbl_name()).len() + rj_string(r.name).len() + seq![','].len() + rj_key(lbl_description()).len() + rj_string(r.description).len() + seq![','].len() + rj_key(lbl_version()).len() + rj_opt_string(r.version).len() + seq![','].len() + rj_key(lbl_ewd()).len() + rj_opt_string(r.execute_working_directory).len()] == ',',
        s[i + seq!['{'].len() + rj_key(lbl_name()).len() + rj_string(r.name).len() + seq![','].len() + rj_key(lbl_description()).len() + rj_string(r.description).len() + seq![','].len() + rj_key(lbl_version()).len() + rj_opt_string(r.version).len() + seq![','].len() + rj_key(lbl_ewd()).len() + rj_opt_string(r.execute_working_directory).len() + seq![','].len() + rj_key(lbl_main_executable()).len() + rj_opt_string(r.main_executable).len()] == ',',
        s[i + seq!['{'].len() + rj_key(lbl_name()).len() + rj_string(r.name).len() + seq![','].len() + rj_key(lbl_description()).len() + rj_string(r.description).len() + seq![','].len() + rj_key(lbl_version()).len() + rj_opt_string(r.version).len() + seq![','].len() + rj_key(lbl_ewd()).len() + rj_opt_string(r.execute_working_directory).len() + seq![','].len() + rj_key(lbl_main_executable()).len() + rj_opt_string(r.main_executable).len() + seq![','].len() + rj_key(lbl_use_prerelease()).len() + rj_bool(r.use_prerelease).len()] == '}',
{
    let a1: Seq<char> = seq!['{'];
    let a2: Seq<char> = rj_key(lbl_name());
    let a3: Seq<char> = rj_string(r.name);
    let a4: Seq<char> = seq![','];
    let a5: Seq<char> = rj_key(lbl_description());
    let a6: Seq<char> = rj_string(r.description);
    let a7: Seq<char> = seq![','];
    let a8: Seq<char> = rj_key(lbl_version());
    let a9: Seq<char> = rj_opt_string(r.version);
    let a10: Seq<char> = seq![','];
    let a11: Seq<char> = rj_key(lbl_ewd());
    let a12: Seq<char> = rj_opt_string(r.execute_working_directory);
    let a13: Seq<char> = seq![','];
    let a14: Seq<char> = rj_key(lbl_main_executable());
    let a15: Seq<char> = rj_opt_string(r.main_executable);
    let a16: Seq<char> = seq![','];
    let a17: Seq<char> = rj_key(lbl_use_prerelease());
    let a18: Seq<char> = rj_bool(r.use_prerelease);
    let a19: Seq<char> = seq!['}'];
    let w1 = a1;
    let w2 = w1 + a2;
    let w3 = w2 + a3;
    let w4 = w3 + a4;
    let w5 = w4 + a5;
    let w6 = w5 + a6;
    let w7 = w6 + a7;
    let w8 = w7 + a8;
    let w9 = w8 + a9;
    let w10 = w9 + a10;
    let w11 = w10 + a11;
    let w12 = w11 + a12;
    let w13 = w12 + a13;
    let w14 = w13 + a14;
    let w15 = w14 + a15;
    let w16 = w15 + a16;
    let w17 = w16 + a17;
    let w18 = w17 + a18;
    let w19 = w18 + a19;
    assert(rj_record(r) == w19);
    lemma_subrange_concat(s, i, w18, a19);
    lemma_subrange_concat(s, i, w17, a18);
    lemma_subrange_concat(s, i, w16, a17);
    lemma_subrange_concat(s, i, w15, a16);
    lemma_subrange_concat(s, i, w14, a15);
    lemma_subrange_concat(s, i, w13, a14);
    lemma_subrange_concat(s, i, w12, a13);
    lemma_subrange_concat(s, i, w11, a12);
    lemma_subrange_concat(s, i, w10, a11);
    lemma_subrange_concat(s, i, w9, a10);
    lemma_subrange_concat(s, i, w8, a9);
    lemma_subrange_concat(s, i, w7, a8);
    lemma_subrange_concat(s, i, w6, a7);
    lemma_subrange_concat(s, i, w5, a6);
    lemma_subrange_concat(s, i, w4, a5);
    lemma_subrange_concat(s, i, w3, a4);
    lemma_subrange_concat(s, i, w2, a3);
    lemma_subrange_concat(s, i, w1, a2);
    lemma_subrange_chars(s, i, seq!['{']);
    assert(seq!['{'][0] == '{');
    assert(s[(i) + 0] == '{');
    lemma_subrange_chars(s, i + seq!['{'].len() + rj_key(lbl_name()).len() + rj_string(r.name).len(), seq![',']);
    assert(seq![','][0] == ',');
    assert(s[(i + seq!['{'].len() + rj_key(lbl_name()).len() + rj_string(r.name).len()) + 0] == ',');
    lemma_subrange_chars(s, i + seq!['{'].len() + rj_key(lbl_name()).len() + rj_string(r.name).len() + seq![','].len() + rj_key(lbl_description()).len() + rj_string(r.description).len(), seq![',']);
    assert(seq![','][0] == ',');
    assert(s[(i + seq!['{'].len() + rj_key(lbl_name()).len() + rj_string(r.name).len() + seq![','].len() + rj_key(lbl_description()).len() + rj_string(r.description).len()) + 0] == ',');
    lemma_subrange_chars(s, i + seq!['{'].len() + rj_key(lbl_name()).len() + rj_string(r.name).len() + seq![','].len() + rj_key(lbl_description()).len() + rj_string(r.description).len() + seq![','].len() + rj_key(lbl_version()).len() + rj_opt_string(r.version).len(), seq![',']);
    assert(seq![','][0] == ',');
    assert(s[(i + seq!['{'].len() + rj_key(lbl_name()).len() + rj_string(r.name).len() + seq![','].len() + rj_key(lbl_description()).len() + rj_string(r.description).len() + seq![','].len() + rj_key(lbl_version()).len() + rj_opt_string(r.version).len()) + 0] == ',');
    lemma_subrange_chars(s, i + seq!['{'].len() + rj_key(lbl_name()).len() + rj_string(r.name).len() + seq![','].len() + rj_key(lbl_description()).len() + rj_string(r.description).len() + seq![','].len() + rj_key(lbl_version()).len() + rj_opt_string(r.version).len() + seq![','].len() + rj_key(lbl_ewd()).len() + rj_opt_string(r.execute_working_directory).len(), seq![',']);
    assert(seq![','][0] == ',');
    assert(s[(i + seq!['{'].len() + rj_key(lbl_name()).len() + rj_string(r.name).len() + seq![','].len() + rj_key(lbl_description()).len() + rj_string(r.description).len() + seq![','].len() + rj_key(lbl_version()).len() + rj_opt_string(r.version).len() + seq![','].len() + rj_key(lbl_ewd()).len() + rj_opt_string(r.execute_working_directory).len()) + 0] == ',');
    lemma_subrange_chars(s, i + seq!['{'].len() + rj_key(lbl_name()).len() + rj_string(r.name).len() + seq![','].len() + rj_key(lbl_description()).len() + rj_string(r.description).len() + seq![','].len() + rj_key(lbl_version()).len() + rj_opt_string(r.version).len() + seq![','].len() + rj_key(lbl_ewd()).len() + rj_opt_string(r.execute_working_directory).len() + seq![','].len() + rj_key(lbl_main_executable()).len() + rj_opt_string(r.main_executable).len(), seq![',']);
    assert(seq![','][0] == ',');
    assert(s[(i + seq!['{'].len() + rj_key(lbl_name()).len() + rj_string(r.name).len() + seq![','].len() + rj_key(lbl_description()).len() + rj_string(r.description).len() + seq![','].len() + rj_key(lbl_version()).len() + rj_opt_string(r.version).len() + seq![','].len() + rj_key(lbl_ewd()).len() + rj_opt_string(r.execute_working_directory).len() + seq![','].len() + rj_key(lbl_main_executable()).len() + rj_opt_string(r.main_executable).len()) + 0] == ',');
    lemma_subrange_chars(s, i + seq!['{'].len() + rj_key(lbl_name()).len() + rj_string(r.name).len() + seq![','].len() + rj_key(lbl_description()).len() + rj_string(r.description).len() + seq![','].len() + rj_key(lbl_version()).len() + rj_opt_string(r.version).len() + seq![','].len() + rj_key(lbl_ewd()).len() + rj_opt_string(r.execute_working_directory).len() + seq![','].len() + rj_key(lbl_main_executable()).len() + rj_opt_string(r.main_executable).len() + seq![','].len() + rj_key(lbl_use_prerelease()).len() + rj_bool(r.use_prerelease).len(), seq!['}']);
    assert(seq!['}'][0] == '}');
    assert(s[(i + seq!['{'].len() + rj_key(lbl_name()).len() + rj_string(r.name).len() + seq![','].len() + rj_key(lbl_description()).len() + rj_string(r.description).len() + seq![','].len() + rj_key(lbl_version()).len() + rj_opt_string(r.version).len() + seq![','].len() + rj_key(lbl_ewd()).len() + rj_opt_string(r.execute_working_directory).len() + seq![','].len() + rj_key(lbl_main_executable()).len() + rj_opt_string(r.main_executable).len() + seq![','].len() + rj_key(lbl_use_prerelease()).len() + rj_bool(r.use_prerelease).len()) + 0] == '}');
}

} // verus!

verus! {

/// One member of a record object, as `pj_members` consumes it: the key
/// token at `p`, the value right after the colon, and a comma or closing
/// brace after the value.
proof fn lemma_member_step(
    s: Seq<char>,
    p: int,
    label: Seq<char>,
    vlen: int,
    acc: InstalledProductView,
    acc2: InstalledProductView,
)
    requires
        0 <= p,
        p + label.len() + 3 + vlen < s.len(),
        vlen > 0,
        s.subrange(p, p + label.len() + 3) == rj_key(label),
        forall|k: int| 0 <= k < label.len() ==> is_plain_char(#[trigger] label[k]),
        !is_ws(s[p + label.len() + 3]),
        pj_members_step(s, p + label.len() + 3, acc, label) == Some(
            (acc2, p + label.len() + 3 + vlen),
        ),
        !is_ws(s[p + label.len() + 3 + vlen]),
    ensures
        s[p + label.len() + 3 + vlen] == ',' ==> pj_members(s, p, acc) == pj_members(
            s,
            p + label.len() + 3 + vlen + 1,
            acc2,
        ),
        s[p + label.len() + 3 + vlen] == '}' ==> pj_members(s, p, acc) == Some(
            (acc2, p + label.len() + 3 + vlen + 1),
        ),
{
    lemma_parse_key(s, p, label);
    lemma_skip_ws_fixed(s, p);
    let j1 = p + label.len() as int + 2;
    lemma_skip_ws_fixed(s, j1);
    lemma_skip_ws_fixed(s, j1 + 1);
    let j5 = p + label.len() as int + 3 + vlen;
    lemma_skip_ws_fixed(s, j5);
}

} // verus!


verus! {

/// One rendered record member, as the parser consumes it.
#[verifier::rlimit(60)]
proof fn lemma_rec_member1(s: Seq<char>, p: int, r: InstalledProductView, acc: InstalledProductView)
    requires
        0 <= p,
        p + lbl_name().len() + 3 + rj_string(r.name).len() < s.len(),
        s.subrange(p, p + lbl_name().len() + 3) == rj_key(lbl_name()),
        s.subrange(p + lbl_name().len() + 3, p + lbl_name().len() + 3 + rj_string(r.name).len()) == rj_string(r.name),
        s[p + lbl_name().len() + 3 + rj_string(r.name).len()] == ',',
    ensures
        pj_members(s, p, acc) == pj_members(s, p + lbl_name().len() + 3 + rj_string(r.name).len() + 1, rec_set(acc, lbl_name(), r.name, None, false)),
{
    lemma_labels_plain();
    let pv = p + lbl_name().len() as int + 3;
    let vlen = rj_string(r.name).len() as int;
    lemma_subrange_chars(s, pv, rj_string(r.name));
    assert(rj_string(r.name)[0] == '\"');
    assert(s[pv + 0] == '\"' && !is_ws(s[pv + 0]) && !is_ws(s[pv]));
    lemma_parse_string_of_render(s, pv, r.name);
    assert(pj_members_step(s, pv, acc, lbl_name()) == Some((rec_set(acc, lbl_name(), r.name, None, false), pv + vlen)));
    lemma_member_step(s, p, lbl_name(), vlen, acc, rec_set(acc, lbl_name(), r.name, None, false));
}


/// One rendered record member, as the parser consumes it.
#[verifier::rlimit(60)]
proof fn lemma_rec_member2(s: Seq<char>, p: int, r: InstalledProductView, acc: InstalledProductView)
    requires
        0 <= p,
        p + lbl_description().len() + 3 + rj_string(r.description).len() < s.len(),
        s.subrange(p, p + lbl_description().len() + 3) == rj_key(lbl_description()),
        s.subrange(p + lbl_description().len() + 3, p + lbl_description().len() + 3 + rj_string(r.description).len()) == rj_string(r.description),
        s[p + lbl_description().len() + 3 + rj_string(r.description).len()] == ',',
    ensures
        pj_members(s, p, acc) == pj_members(s, p + lbl_description().len() + 3 + rj_string(r.description).len() + 1, rec_set(acc, lbl_description(), r.description, None, false)),
{
    lemma_labels_plain();
    let pv = p + lbl_description().len() as int + 3;
    let vlen = rj_string(r.description).len() as int;
    lemma_subrange_chars(s, pv, rj_string(r.description));
    assert(rj_string(r.description)[0] == '\"');
    assert(s[pv + 0] == '\"' && !is_ws(s[pv + 0]) && !is_ws(s[pv]));
    lemma_parse_string_of_render(s, pv, r.description);
    assert(pj_members_step(s, pv, acc, lbl_description()) == Some((rec_set(acc, lbl_description(), r.description, None, false), pv + vlen)));
    lemma_member_step(s, p, lbl_description(), vlen, acc, rec_set(acc, lbl_description(), r.description, None, false));
}


/// One rendered record member, as the parser consumes it.
#[verifier::rlimit(60)]
proof fn lemma_rec_member3(s: Seq<char>, p: int, r: InstalledProductView, acc: InstalledProductView)
    requires
        0 <= p,
        p + lbl_version().len() + 3 + rj_opt_string(r.version).len() < s.len(),
        s.subrange(p, p + lbl_version().len() + 3) == rj_key(lbl_version()),
        s.subrange(p + lbl_version().len() + 3, p + lbl_version().len() + 3 + rj_opt_string(r.version).len()) == rj_opt_string(r.version),
        s[p + lbl_version().len() + 3 + rj_opt_string(r.version).len()] == ',',
    ensures
        pj_members(s, p, acc) == pj_members(s, p + lbl_version().len() + 3 + rj_opt_string(r.version).len() + 1, rec_set(acc, lbl_version(), Seq::empty(), r.version, false)),
{
    lemma_labels_plain();
    let pv = p + lbl_version().len() as int + 3;
    let vlen = rj_opt_string(r.version).len() as int;
    lemma_subrange_chars(s, pv, rj_opt_string(r.version));
    match r.version {
        Some(t) => { assert(rj_opt_string(r.version)[0] == '\"'); },
        None => { assert(rj_opt_string(r.version)[0] == 'n'); },
    }
    assert(!is_ws(s[pv + 0]) && !is_ws(s[pv]));
    lemma_parse_opt_of_render(s, pv, r.version);
    assert(pj_members_step(s, pv, acc, lbl_version()) == Some((rec_set(acc, lbl_version(), Seq::empty(), r.version, false), pv + vlen)));
    lemma_member_step(s, p, lbl_version(), vlen, acc, rec_set(acc, lbl_version(), Seq::empty(), r.version, false));
}


/// One rendered record member, as the parser consumes it.
#[verifier::rlimit(60)]
proof fn lemma_rec_member4(s: Seq<char>, p: int, r: InstalledProductView, acc: InstalledProductView)
    requires
        0 <= p,
        p + lbl_ewd().len() + 3 + rj_opt_string(r.execute_working_directory).len() < s.len(),
        s.subrange(p, p + lbl_ewd().len() + 3) == rj_key(lbl_ewd()),
        s.subrange(p + lbl_ewd().len() + 3, p + lbl_ewd().len() + 3 + rj_opt_string(r.execute_working_directory).len()) == rj_opt_string(r.execute_working_directory),
        s[p + lbl_ewd().len() + 3 + rj_opt_string(r.execute_working_directory).len()] == ',',
    ensures
        pj_members(s, p, acc) == pj_members(s, p + lbl_ewd().len() + 3 + rj_opt_string(r.execute_working_directory).len() + 1, rec_set(acc, lbl_ewd(), Seq::empty(), r.execute_working_directory, false)),
{
    lemma_labels_plain();
    let pv = p + lbl_ewd().len() as int + 3;
    let vlen = rj_opt_string(r.execute_working_directory).len() as int;
    lemma_subrange_chars(s, pv, rj_opt_string(r.execute_working_directory));
    match r.execute_working_directory {
        Some(t) => { assert(rj_opt_string(r.execute_working_directory)[0] == '\"'); },
        None => { assert(rj_opt_string(r.execute_working_directory)[0] == 'n'); },
    }
    assert(!is_ws(s[pv + 0]) && !is_ws(s[pv]));
    lemma_parse_opt_of_render(s, pv, r.execute_working_directory);
    assert(pj_members_step(s, pv, acc, lbl_ewd()) == Some((rec_set(acc, lbl_ewd(), Seq::empty(), r.execute_working_directory, false), pv + vlen)));
    lemma_member_step(s, p, lbl_ewd(), vlen, acc, rec_set(acc, lbl_ewd(), Seq::empty(), r.execute_working_directory, false));
}


/// One rendered record member, as the parser consumes it.
#[verifier::rlimit(60)]
proof fn lemma_rec_member5(s: Seq<char>, p: int, r: InstalledProductView, acc: InstalledProductView)
    requires
        0 <= p,
        p + lbl_main_executable().len() + 3 + rj_opt_string(r.main_executable).len() < s.len(),
        s.subrange(p, p + lbl_main_executable().len() + 3) == rj_key(lbl_main_executable()),
        s.subrange(p + lbl_main_executable().len() + 3, p + lbl_main_executable().len() + 3 + rj_opt_string(r.main_executable).len()) == rj_opt_string(r.main_executable),
        s[p + lbl_main_executable().len() + 3 + rj_opt_string(r.main_executable).len()] == ',',
    ensures
        pj_members(s, p, acc) == pj_members(s, p + lbl_main_executable().len() + 3 + rj_opt_string(r.main_executable).len() + 1, rec_set(acc, lbl_main_executable(), Seq::empty(), r.main_executable, false)),
{
    lemma_labels_plain();
    let pv = p + lbl_main_executable().len() as int + 3;
    let vlen = rj_opt_string(r.main_executable).len() as int;
    lemma_subrange_chars(s, pv, rj_opt_string(r.main_executable));
    match r.main_executable {
        Some(t) => { assert(rj_opt_string(r.main_executable)[0] == '\"'); },
        None => { assert(rj_opt_string(r.main_executable)[0] == 'n'); },
    }
    assert(!is_ws(s[pv + 0]) && !is_ws(s[pv]));
    lemma_parse_opt_of_render(s, pv, r.main_executable);
    assert(pj_members_step(s, pv, acc, lbl_main_executable()) == Some((rec_set(acc, lbl_main_executable(), Seq::empty(), r.main_executable, false), pv + vlen)));
    lemma_member_step(s, p, lbl_main_executable(), vlen, acc, rec_set(acc, lbl_main_executable(), Seq::empty(), r.main_executable, false));
}


/// One rendered record member, as the parser consumes it.
#[verifier::rlimit(60)]
proof fn lemma_rec_member6(s: Seq<char>, p: int, r: InstalledProductView, acc: InstalledProductView)
    requires
        0 <= p,
        p + lbl_use_prerelease().len() + 3 + rj_bool(r.use_prerelease).len() < s.len(),
        s.subrange(p, p + lbl_use_prerelease().len() + 3) == rj_key(lbl_use_prerelease()),
        s.subrange(p + lbl_use_prerelease().len() + 3, p + lbl_use_prerelease().len() + 3 + rj_bool(r.use_prerelease).len()) == rj_bool(r.use_prerelease),
        s[p + lbl_use_prerelease().len() + 3 + rj_bool(r.use_prerelease).len()] == '}',
    ensures
        pj_members(s, p, acc) == Some((rec_set(acc, lbl_use_prerelease(), Seq::empty(), None, r.use_prerelease), p + lbl_use_prerelease().len() + 3 + rj_bool(r.use_prerelease).len() + 1)),
{
    lemma_labels_plain();
    let pv = p + lbl_use_prerelease().len() as int + 3;
    let vlen = rj_bool(r.use_prerelease).len() as int;
    lemma_subrange_chars(s, pv, rj_bool(r.use_prerelease));
    if r.use_prerelease { assert(rj_bool(r.use_prerelease)[0] == 't'); } else { assert(rj_bool(r.use_prerelease)[0] == 'f'); }
    assert(!is_ws(s[pv + 0]) && !is_ws(s[pv]));
    lemma_parse_bool_of_render(s, pv, r.use_prerelease);
    assert(pj_members_step(s, pv, acc, lbl_use_prerelease()) == Some((rec_set(acc, lbl_use_prerelease(), Seq::empty(), None, r.use_prerelease), pv + vlen)));
    lemma_member_step(s, p, lbl_use_prerelease(), vlen, acc, rec_set(acc, lbl_use_prerelease(), Seq::empty(), None, r.use_prerelease));
}


/// The record built member by member is the record itself.
proof fn lemma_rec_set_chain(r: InstalledProductView)
    ensures
        rec_set(
            rec_set(
                rec_set(
                    rec_set(
                        rec_set(
                            rec_set(spec_default_record(), lbl_name(), r.name, None, false),
                            lbl_description(),
                            r.description,
                            None,
                            false,
                        ),
                        lbl_version(),
                        Seq::empty(),
                        r.version,
                        false,
                    ),
                    lbl_ewd(),
                    Seq::empty(),
                    r.execute_working_directory,
                    false,
                ),
                lbl_main_executable(),
                Seq::empty(),
                r.main_executable,
                false,
            ),
            lbl_use_prerelease(),
            Seq::empty(),
            None,
            r.use_prerelease,
        ) == r,
{
}

/// Parsing the record that `rj_record` wrote gives the record back.
#[verifier::rlimit(100)]
#[verifier::spinoff_prover]
proof fn lemma_parse_record_of_render(s: Seq<char>, i: int, r: InstalledProductView)
    requires
        0 <= i,
        i + rj_record(r).len() <= s.len(),
        s.subrange(i, i + rj_record(r).len()) == rj_record(r),
    ensures
        pj_record(s, i) == Some((r, i + rj_record(r).len())),
{
    lemma_record_segments(s, i, r);
    let acc0 = spec_default_record();
    let acc1 = rec_set(acc0, lbl_name(), r.name, None, false);
    let acc2 = rec_set(acc1, lbl_description(), r.description, None, false);
    let acc3 = rec_set(acc2, lbl_version(), Seq::empty(), r.version, false);
    let acc4 = rec_set(acc3, lbl_ewd(), Seq::empty(), r.execute_working_directory, false);
    let acc5 = rec_set(acc4, lbl_main_executable(), Seq::empty(), r.main_executable, false);
    let acc6 = rec_set(acc5, lbl_use_prerelease(), Seq::empty(), None, r.use_prerelease);
    lemma_rec_set_chain(r);
    let pk1 = i + 1;
    let ps1 = pk1 + lbl_name().len() + 3 + rj_string(r.name).len();
    lemma_rec_member1(s, pk1, r, acc0);
    let pk2 = ps1 + 1;
    let ps2 = pk2 + lbl_description().len() + 3 + rj_string(r.description).len();
    lemma_rec_member2(s, pk2, r, acc1);
    let pk3 = ps2 + 1;
    let ps3 = pk3 + lbl_version().len() + 3 + rj_opt_string(r.version).len();
    lemma_rec_member3(s, pk3, r, acc2);
    let pk4 = ps3 + 1;
    let ps4 = pk4 + lbl_ewd().len() + 3 + rj_opt_string(r.execute_working_directory).len();
    lemma_rec_member4(s, pk4, r, acc3);
    let pk5 = ps4 + 1;
    let ps5 = pk5 + lbl_main_executable().len() + 3 + rj_opt_string(r.main_executable).len();
    lemma_rec_member5(s, pk5, r, acc4);
    let pk6 = ps5 + 1;
    let ps6 = pk6 + lbl_use_prerelease().len() + 3 + rj_bool(r.use_prerelease).len();
    lemma_rec_member6(s, pk6, r, acc5);
    assert(ps6 + 1 == i + rj_record(r).len());
    lemma_skip_ws_fixed(s, i);
    lemma_subrange_chars(s, pk1, rj_key(lbl_name()));
    assert(rj_key(lbl_name())[0] == '"');
    assert(s[pk1 + 0] == rj_key(lbl_name())[0]);
    assert(s[i + 1] == '"');
    lemma_skip_ws_fixed(s, i + 1);
    assert(pj_record(s, i) == pj_members(s, i + 1, spec_default_record()));
    assert(pj_members(s, i + 1, acc0) == Some((r, i + rj_record(r).len())));
}

} // verus!

verus! {

/// `rj_entries` seen from the front: the first member, then a comma and
/// the rest.
proof fn lemma_rj_entries_front(es: Seq<(Seq<char>, InstalledProductView)>)
    requires
        es.len() > 0,
    ensures
        es.len() == 1 ==> rj_entries(es) == rj_key_value(es[0]),
        es.len() > 1 ==> rj_entries(es) == rj_key_value(es[0]) + seq![','] + rj_entries(
            es.drop_first(),
        ),
    decreases es.len(),
{
    if es.len() == 1 {
        assert(es[0] == es.first());
    } else {
        let dl = es.drop_last();
        lemma_rj_entries_front(dl);
        let df = es.drop_first();
        assert(df.drop_last() =~= dl.drop_first());
        assert(df.last() == es.last());
        assert(dl[0] == es[0]);
        if es.len() == 2 {
            assert(rj_entries(dl) == rj_key_value(es[0]));
            assert(df[0] == es.last());
            assert(rj_entries(df) == rj_key_value(df[0]));
        } else {
            assert(df.len() >= 2);
            assert(df[0] == es[1] && dl[1] == es[1]);
            assert(rj_entries(df) == rj_entries(df.drop_last()) + seq![','] + rj_key_value(
                df.last(),
            ));
            assert(rj_entries(df.drop_last()) == rj_entries(dl.drop_first()));
            assert(dl.drop_first()[0] == dl[1]);
            let a = rj_key_value(es[0]);
            let b: Seq<char> = seq![','];
            let e1 = rj_entries(dl.drop_first());
            let c = rj_key_value(es.last());
            assert(rj_entries(dl) == a + b + e1);
            assert(rj_entries(es) == ((a + b) + e1 + b) + c);
            assert(((a + b) + e1 + b) + c =~= (a + b) + ((e1 + b) + c));
            assert(rj_entries(es) == a + b + rj_entries(df));
        }
    }
}

/// Parsing the members that `rj_entries` wrote appends exactly those
/// entries, ending after the closing brace.
#[verifier::rlimit(100)]
proof fn lemma_parse_entries(
    s: Seq<char>,
    p: int,
    es: Seq<(Seq<char>, InstalledProductView)>,
    acc: Seq<(Seq<char>, InstalledProductView)>,
)
    requires
        es.len() > 0,
        0 <= p,
        p + rj_entries(es).len() < s.len(),
        s.subrange(p, p + rj_entries(es).len()) == rj_entries(es),
        s[p + rj_entries(es).len()] == '}',
    ensures
        pj_prod_members(s, p, acc) == Some((acc + es, p + rj_entries(es).len() + 1)),
    decreases es.len(),
{
    lemma_rj_entries_front(es);
    let id = es[0].0;
    let rec = es[0].1;
    let kv = rj_key_value(es[0]);
    let sid = rj_string(id);
    let col: Seq<char> = seq![':'];
    let rr = rj_record(rec);
    assert(kv == sid + col + rr);
    // split the first member off the text
    if es.len() == 1 {
        assert(s.subrange(p, p + kv.len()) == kv);
    } else {
        let b: Seq<char> = seq![','];
        let rest = rj_entries(es.drop_first());
        assert(rj_entries(es) == (kv + b) + rest);
        lemma_subrange_concat(s, p, kv + b, rest);
        lemma_subrange_concat(s, p, kv, b);
    }
    // split the member into id, colon, record
    lemma_subrange_concat(s, p, sid + col, rr);
    lemma_subrange_concat(s, p, sid, col);
    lemma_subrange_chars(s, p, sid);
    assert(sid[0] == '"');
    assert(s[p + 0] == sid[0]);
    assert(s[p] == '"' && !is_ws(s[p]));
    lemma_skip_ws_fixed(s, p);
    lemma_parse_string_of_render(s, p, id);
    let pc = p + sid.len();
    lemma_subrange_chars(s, pc, col);
    assert(col[0] == ':');
    assert(s[pc + 0] == col[0]);
    assert(s[pc] == ':' && !is_ws(s[pc]));
    lemma_skip_ws_fixed(s, pc);
    let pr = pc + 1;
    lemma_parse_record_of_render(s, pr, rec);
    let pe = pr + rr.len();
    assert(pe == p + kv.len());
    if es.len() == 1 {
        assert(s[pe] == '}');
        lemma_skip_ws_fixed(s, pe);
        assert(pj_prod_members(s, p, acc) == Some((acc.push(es[0]), pe + 1)));
        assert(acc.push(es[0]) =~= acc + es);
    } else {
        let b: Seq<char> = seq![','];
        lemma_subrange_chars(s, pe, b);
        assert(b[0] == ',');
        assert(s[pe + 0] == b[0]);
        assert(s[pe] == ',' && !is_ws(s[pe]));
        lemma_skip_ws_fixed(s, pe);
        let rest = rj_entries(es.drop_first());
        assert(s.subrange(pe + 1, pe + 1 + rest.len()) == rest);
        assert(pe + 1 + rest.len() == p + rj_entries(es).len());
        lemma_parse_entries(s, pe + 1, es.drop_first(), acc.push(es[0]));
        assert(pj_prod_members(s, p, acc) == pj_prod_members(s, pe + 1, acc.push(es[0])));
        assert(acc.push(es[0]) + es.drop_first() =~= acc + es);
    }
}

} // verus!

verus! {

/// The store document round-trips: parsing what `rj_install` renders for
/// any entry list yields exactly that entry list. In particular, saving a
/// store and loading it again restores every record.
#[verifier::rlimit(100)]
pub proof fn lemma_store_round_trip(entries: Seq<(Seq<char>, InstalledProductView)>)
    ensures
        pj_install(rj_install(entries)) == Some(entries),
{
    lemma_labels_plain();
    let s = rj_install(entries);
    let q1: Seq<char> = seq!['{'];
    let key = rj_key(lbl_products());
    let e = rj_entries(entries);
    let q3: Seq<char> = seq!['}', '}'];
    assert(s == q1 + key + q1 + e + q3);
    assert(s.subrange(0, s.len() as int) =~= s);
    lemma_subrange_concat(s, 0, q1 + key + q1 + e, q3);
    lemma_subrange_concat(s, 0, q1 + key + q1, e);
    lemma_subrange_concat(s, 0, q1 + key, q1);
    lemma_subrange_concat(s, 0, q1, key);
    lemma_subrange_chars(s, 0, q1);
    assert(q1[0] == '{');
    assert(s[0int + 0] == q1[0]);
    assert(s[0] == '{');
    lemma_skip_ws_fixed(s, 0);
    let pk = 1int;
    lemma_subrange_chars(s, pk, key);
    assert(key[0] == '"');
    assert(s[pk + 0] == key[0]);
    assert(s[1] == '"' && !is_ws(s[1]));
    lemma_skip_ws_fixed(s, 1);
    lemma_parse_key(s, 1, lbl_products());
    let pcol = 1 + lbl_products().len() as int + 2;
    assert(s[pcol] == ':' && !is_ws(s[pcol]));
    lemma_skip_ws_fixed(s, pcol);
    let pbrace = pcol + 1;
    let pb2 = 1 + key.len() as int;
    assert(pbrace == pb2);
    lemma_subrange_chars(s, pb2, q1);
    assert(s[pb2 + 0] == q1[0]);
    assert(s[pbrace] == '{' && !is_ws(s[pbrace]));
    lemma_skip_ws_fixed(s, pbrace);
    let pe = pb2 + 1;
    let pclose = pe + e.len();
    lemma_subrange_chars(s, pclose, q3);
    assert(q3[0] == '}' && q3[1] == '}');
    assert(s[pclose + 0] == q3[0]);
    assert(s[pclose + 1] == q3[1]);
    assert(s[pclose] == '}' && !is_ws(s[pclose]));
    if entries.len() == 0 {
        assert(e.len() == 0);
        lemma_skip_ws_fixed(s, pe);
        assert(s[pe] == '}');
        assert(pj_products(s, pbrace) == Some((Seq::<(Seq<char>, InstalledProductView)>::empty(), pe + 1)));
        assert(Seq::<(Seq<char>, InstalledProductView)>::empty() =~= entries);
    } else {
        lemma_subrange_chars(s, pe, e);
        lemma_rj_entries_front(entries);
        assert(e[0] == rj_key_value(entries[0])[0]);
        assert(rj_key_value(entries[0])[0] == rj_string(entries[0].0)[0]);
        assert(rj_string(entries[0].0)[0] == '"');
        assert(s[pe + 0] == e[0]);
        assert(s[pe] == '"' && !is_ws(s[pe]));
        lemma_skip_ws_fixed(s, pe);
        assert(s.subrange(pe, pe + e.len()) == e);
        lemma_parse_entries(s, pe, entries, Seq::empty());
        assert(Seq::<(Seq<char>, InstalledProductView)>::empty() + entries =~= entries);
        assert(pj_products(s, pbrace) == Some((entries, pclose + 1)));
    }
    let pouter = pclose + 1;
    lemma_skip_ws_fixed(s, pouter);
    assert(s[pouter] == '}');
    assert(pouter + 1 == s.len());
    assert(skip_ws(s, pouter + 1) == s.len() as int);
}

} // verus!
