//! Pretty-printing a document: an indented text, two spaces per level,
//! defined character for character by the spec functions here.

use vstd::prelude::*;

use crate::text::string_from_chars;
use crate::value::{
    json_model, lemma_members_from, lemma_models_from, members_from, models_from, Json, Model,
};

verus! {

/// The character for one hexadecimal digit, lower case.
pub open spec fn hex_digit(d: int) -> char {
    if d == 0 {
        '0'
    } else if d == 1 {
        '1'
    } else if d == 2 {
        '2'
    } else if d == 3 {
        '3'
    } else if d == 4 {
        '4'
    } else if d == 5 {
        '5'
    } else if d == 6 {
        '6'
    } else if d == 7 {
        '7'
    } else if d == 8 {
        '8'
    } else if d == 9 {
        '9'
    } else if d == 10 {
        'a'
    } else if d == 11 {
        'b'
    } else if d == 12 {
        'c'
    } else if d == 13 {
        'd'
    } else if d == 14 {
        'e'
    } else {
        'f'
    }
}

/// How one character of a string is written: quote and backslash get a
/// backslash, the named control characters their short escape, any other
/// control character a `\u00..` escape, and everything else stands as is.
pub open spec fn esc_char(c: char) -> Seq<char> {
    if c == '"' {
        seq!['\\', '"']
    } else if c == '\\' {
        seq!['\\', '\\']
    } else if c == '\u{8}' {
        seq!['\\', 'b']
    } else if c == '\u{c}' {
        seq!['\\', 'f']
    } else if c == '\n' {
        seq!['\\', 'n']
    } else if c == '\r' {
        seq!['\\', 'r']
    } else if c == '\t' {
        seq!['\\', 't']
    } else if (c as int) < 32 {
        seq!['\\', 'u', '0', '0', hex_digit((c as int) / 16), hex_digit((c as int) % 16)]
    } else {
        seq![c]
    }
}

/// How a whole string is written, character for character.
pub open spec fn esc(s: Seq<char>) -> Seq<char>
    decreases s.len(),
{
    if s.len() == 0 {
        Seq::empty()
    } else {
        esc(s.drop_last()) + esc_char(s.last())
    }
}

/// Two spaces: one further level of indentation.
pub open spec fn sp2() -> Seq<char> {
    seq![' ', ' ']
}

/// The text of a value at indentation `pad`.
pub open spec fn render(m: Model, pad: Seq<char>) -> Seq<char>
    decreases m, 1int, 0int,
    via render_decreases
{
    match m {
        Model::Null => seq!['n', 'u', 'l', 'l'],
        Model::Bool(b) => if b {
            seq!['t', 'r', 'u', 'e']
        } else {
            seq!['f', 'a', 'l', 's', 'e']
        },
        Model::Number(lit) => lit,
        Model::Text(t) => seq!['"'] + esc(t) + seq!['"'],
        Model::Array(items) => if items.len() == 0 {
            seq!['[', ']']
        } else {
            seq!['['] + render_items(items, 0, pad) + seq!['\n'] + pad + seq![']']
        },
        Model::Object(members) => if members.len() == 0 {
            seq!['{', '}']
        } else {
            seq!['{'] + render_members(members, 0, pad) + seq!['\n'] + pad + seq!['}']
        },
    }
}

/// The lines for the items of an array from index `i` on: each on its own
/// line, one level deeper than `pad`, a comma after each but the last.
pub open spec fn render_items(items: Seq<Model>, i: int, pad: Seq<char>) -> Seq<char>
    decreases items, 0int, items.len() - i,
    via render_items_decreases
{
    if i < 0 || i >= items.len() {
        Seq::empty()
    } else {
        seq!['\n'] + pad + sp2() + render(items[i], pad + sp2()) + (if i + 1 < items.len() {
            seq![',']
        } else {
            Seq::empty()
        }) + render_items(items, i + 1, pad)
    }
}

/// The lines for the members of an object from index `i` on: each on its
/// own line, one level deeper than `pad`, as `"key": value`, a comma after
/// each but the last.
pub open spec fn render_members(
    members: Seq<(Seq<char>, Model)>,
    i: int,
    pad: Seq<char>,
) -> Seq<char>
    decreases members, 0int, members.len() - i,
    via render_members_decreases
{
    if i < 0 || i >= members.len() {
        Seq::empty()
    } else {
        seq!['\n'] + pad + sp2() + seq!['"'] + esc(members[i].0) + seq!['"', ':', ' '] + render(
            members[i].1,
            pad + sp2(),
        ) + (if i + 1 < members.len() {
            seq![',']
        } else {
            Seq::empty()
        }) + render_members(members, i + 1, pad)
    }
}

#[via_fn]
proof fn render_decreases(m: Model, pad: Seq<char>) {
    match m {
        Model::Array(items) => {
            assert(decreases_to!(m => items));
        }
        Model::Object(members) => {
            assert(decreases_to!(m => members));
        }
        _ => {}
    }
}

#[via_fn]
proof fn render_items_decreases(items: Seq<Model>, i: int, pad: Seq<char>) {
    if 0 <= i < items.len() {
        vstd::seq::axiom_seq_index_decreases(items, i);
    }
}

#[via_fn]
proof fn render_members_decreases(members: Seq<(Seq<char>, Model)>, i: int, pad: Seq<char>) {
    if 0 <= i < members.len() {
        vstd::seq::axiom_seq_index_decreases(members, i);
        assert(decreases_to!(members[i] => members[i].1));
    }
}

/// The character for one hexadecimal digit.
fn hex_char(d: u32) -> (c: char)
    requires
        d < 16,
    ensures
        c == hex_digit(d as int),
{
    if d == 0 {
        '0'
    } else if d == 1 {
        '1'
    } else if d == 2 {
        '2'
    } else if d == 3 {
        '3'
    } else if d == 4 {
        '4'
    } else if d == 5 {
        '5'
    } else if d == 6 {
        '6'
    } else if d == 7 {
        '7'
    } else if d == 8 {
        '8'
    } else if d == 9 {
        '9'
    } else if d == 10 {
        'a'
    } else if d == 11 {
        'b'
    } else if d == 12 {
        'c'
    } else if d == 13 {
        'd'
    } else if d == 14 {
        'e'
    } else {
        'f'
    }
}

/// Append the characters of `src` to `out`.
fn write_chars(src: &Vec<char>, out: &mut Vec<char>)
    ensures
        final(out)@ == old(out)@ + src@,
{
    proof {
        assert(old(out)@ + src@.take(0) =~= old(out)@);
    }
    let mut k: usize = 0;
    while k < src.len()
        invariant
            k <= src.len(),
            out@ == old(out)@ + src@.take(k as int),
        decreases src.len() - k,
    {
        out.push(src[k]);
        proof {
            assert(old(out)@ + src@.take((k + 1) as int) =~= (old(out)@ + src@.take(
                k as int,
            )).push(src@[k as int]));
        }
        k = k + 1;
    }
    proof {
        assert(src@.take(src.len() as int) =~= src@);
    }
}

/// One level more of indentation than `pad`.
fn child_pad(pad: &Vec<char>) -> (r: Vec<char>)
    ensures
        r@ == pad@ + sp2(),
{
    let mut r: Vec<char> = Vec::new();
    write_chars(pad, &mut r);
    r.push(' ');
    r.push(' ');
    proof {
        assert(r@ =~= pad@ + sp2());
    }
    r
}

/// Append the escaped form of one string character to `out`.
fn write_esc_char(c: char, out: &mut Vec<char>)
    ensures
        final(out)@ == old(out)@ + esc_char(c),
{
    if c == '"' {
        out.push('\\');
        out.push('"');
    } else if c == '\\' {
        out.push('\\');
        out.push('\\');
    } else if c == '\u{8}' {
        out.push('\\');
        out.push('b');
    } else if c == '\u{c}' {
        out.push('\\');
        out.push('f');
    } else if c == '\n' {
        out.push('\\');
        out.push('n');
    } else if c == '\r' {
        out.push('\\');
        out.push('r');
    } else if c == '\t' {
        out.push('\\');
        out.push('t');
    } else if (c as u32) < 32 {
        let code = c as u32;
        out.push('\\');
        out.push('u');
        out.push('0');
        out.push('0');
        out.push(hex_char(code / 16));
        out.push(hex_char(code % 16));
    } else {
        out.push(c);
    }
    proof {
        assert(out@ =~= old(out)@ + esc_char(c));
    }
}

/// Append the escaped form of a whole string to `out`.
fn write_esc(s: &Vec<char>, out: &mut Vec<char>)
    ensures
        final(out)@ == old(out)@ + esc(s@),
{
    proof {
        assert(old(out)@ + esc(s@.take(0)) =~= old(out)@);
    }
    let mut k: usize = 0;
    while k < s.len()
        invariant
            k <= s.len(),
            out@ == old(out)@ + esc(s@.take(k as int)),
        decreases s.len() - k,
    {
        write_esc_char(s[k], out);
        proof {
            assert(s@.take((k + 1) as int).drop_last() =~= s@.take(k as int));
            assert(s@.take((k + 1) as int).last() == s@[k as int]);
            assert(esc(s@.take((k + 1) as int)) == esc(s@.take(k as int)) + esc_char(
                s@[k as int],
            ));
            assert(out@ =~= old(out)@ + esc(s@.take((k + 1) as int)));
        }
        k = k + 1;
    }
    proof {
        assert(s@.take(s.len() as int) =~= s@);
    }
}

/// Append the text of `v` at indentation `pad` to `out`.
#[verifier::loop_isolation(false)]
#[verifier::rlimit(100)]
fn write_value(v: &Json, pad: &Vec<char>, out: &mut Vec<char>)
    ensures
        final(out)@ == old(out)@ + render(v@, pad@),
    decreases *v,
{
    match v {
        Json::Null => {
            out.push('n');
            out.push('u');
            out.push('l');
            out.push('l');
            proof {
                assert(out@ =~= old(out)@ + render(v@, pad@));
            }
        },
        Json::Bool(b) => {
            if *b {
                out.push('t');
                out.push('r');
                out.push('u');
                out.push('e');
            } else {
                out.push('f');
                out.push('a');
                out.push('l');
                out.push('s');
                out.push('e');
            }
            proof {
                assert(out@ =~= old(out)@ + render(v@, pad@));
            }
        },
        Json::Number(digits) => {
            write_chars(digits, out);
            proof {
                assert(out@ =~= old(out)@ + render(v@, pad@));
            }
        },
        Json::Text(t) => {
            out.push('"');
            write_esc(t, out);
            out.push('"');
            proof {
                assert(out@ =~= old(out)@ + render(v@, pad@));
            }
        },
        Json::Array(items) => {
            proof {
                lemma_models_from(items@, 0);
            }
            let ghost arr = models_from(items@, 0);
            if items.len() == 0 {
                out.push('[');
                out.push(']');
                proof {
                    assert(out@ =~= old(out)@ + render(v@, pad@));
                }
            } else {
                let pad2 = child_pad(pad);
                out.push('[');
                proof {
                    assert(out@ =~= old(out)@ + seq!['[']);
                }
                let mut j: usize = 0;
                while j < items.len()
                    invariant
                        j <= items.len(),
                        items@.len() > 0,
                        pad2@ == pad@ + sp2(),
                        arr == models_from(items@, 0),
                        out@ + render_items(arr, j as int, pad@) == old(out)@ + seq!['[']
                            + render_items(arr, 0, pad@),
                    decreases items.len() - j,
                {
                    let ghost out_at_j = out@;
                    out.push('\n');
                    write_chars(&pad2, out);
                    proof {
                        assert(decreases_to!(*v => *items));
                        assert(decreases_to!(*items => items@));
                        vstd::seq::axiom_seq_index_decreases(items@, j as int);
                    }
                    write_value(&items[j], &pad2, out);
                    if j + 1 < items.len() {
                        out.push(',');
                    }
                    proof {
                        lemma_models_from(items@, 0);
                        assert(arr[j as int] == json_model(items@[j as int]));
                        let sep: Seq<char> = if j + 1 < items@.len() {
                            seq![',']
                        } else {
                            Seq::empty()
                        };
                        assert(render_items(arr, j as int, pad@) == seq!['\n'] + pad@ + sp2()
                            + render(arr[j as int], pad@ + sp2()) + sep + render_items(
                            arr,
                            j as int + 1,
                            pad@,
                        ));
                        assert(out@ =~= out_at_j + (seq!['\n'] + pad@ + sp2() + render(
                            arr[j as int],
                            pad@ + sp2(),
                        ) + sep));
                        assert(out@ + render_items(arr, j as int + 1, pad@) =~= out_at_j
                            + render_items(arr, j as int, pad@));
                    }
                    j = j + 1;
                }
                out.push('\n');
                write_chars(pad, out);
                out.push(']');
                proof {
                    assert(render_items(arr, items@.len() as int, pad@) == Seq::<char>::empty());
                    assert(out@ =~= old(out)@ + render(v@, pad@));
                }
            }
        },
        Json::Object(members) => {
            proof {
                lemma_members_from(members@, 0);
            }
            let ghost mem = members_from(members@, 0);
            if members.len() == 0 {
                out.push('{');
                out.push('}');
                proof {
                    assert(out@ =~= old(out)@ + render(v@, pad@));
                }
            } else {
                let pad2 = child_pad(pad);
                out.push('{');
                proof {
                    assert(out@ =~= old(out)@ + seq!['{']);
                }
                let mut j: usize = 0;
                while j < members.len()
                    invariant
                        j <= members.len(),
                        members@.len() > 0,
                        pad2@ == pad@ + sp2(),
                        mem == members_from(members@, 0),
                        out@ + render_members(mem, j as int, pad@) == old(out)@ + seq!['{']
                            + render_members(mem, 0, pad@),
                    decreases members.len() - j,
                {
                    let ghost out_at_j = out@;
                    out.push('\n');
                    write_chars(&pad2, out);
                    out.push('"');
                    write_esc(&members[j].0, out);
                    out.push('"');
                    out.push(':');
                    out.push(' ');
                    proof {
                        assert(decreases_to!(*v => *members));
                        assert(decreases_to!(*members => members@));
                        vstd::seq::axiom_seq_index_decreases(members@, j as int);
                        assert(decreases_to!(members@[j as int] => members@[j as int].1));
                    }
                    write_value(&members[j].1, &pad2, out);
                    if j + 1 < members.len() {
                        out.push(',');
                    }
                    proof {
                        lemma_members_from(members@, 0);
                        assert(mem[j as int] == (members@[j as int].0@, json_model(
                            members@[j as int].1,
                        )));
                        let sep: Seq<char> = if j + 1 < members@.len() {
                            seq![',']
                        } else {
                            Seq::empty()
                        };
                        assert(render_members(mem, j as int, pad@) == seq!['\n'] + pad@ + sp2()
                            + seq!['"'] + esc(mem[j as int].0) + seq!['"', ':', ' '] + render(
                            mem[j as int].1,
                            pad@ + sp2(),
                        ) + sep + render_members(mem, j as int + 1, pad@));
                        assert(out@ =~= out_at_j + (seq!['\n'] + pad@ + sp2() + seq!['"'] + esc(
                            mem[j as int].0,
                        ) + seq!['"', ':', ' '] + render(mem[j as int].1, pad@ + sp2()) + sep));
                        assert(out@ + render_members(mem, j as int + 1, pad@) =~= out_at_j
                            + render_members(mem, j as int, pad@));
                    }
                    j = j + 1;
                }
                out.push('\n');
                write_chars(pad, out);
                out.push('}');
                proof {
                    assert(render_members(mem, members@.len() as int, pad@) == Seq::<
                        char,
                    >::empty());
                    assert(out@ =~= old(out)@ + render(v@, pad@));
                }
            }
        },
    }
}

/// The pretty text of a document: indented two spaces per level, no
/// trailing newline.
pub fn to_pretty(v: &Json) -> (s: String)
    ensures
        s@ == render(v@, Seq::empty()),
{
    let pad: Vec<char> = Vec::new();
    let mut out: Vec<char> = Vec::new();
    write_value(v, &pad, &mut out);
    proof {
        assert(out@ =~= render(v@, Seq::empty()));
    }
    string_from_chars(&out)
}

} // verus!
