//! The durable cursor document: a pretty-printed JSON object mapping
//! platform names to unsigned cursors, terminated with a newline.
//!
//! The canonical rendering is fixed here, together with a parser that
//! reads such documents back; parsing a rendered document returns
//! exactly the entries it was rendered from.

use vstd::prelude::*;
use vstd::string::StringExecFns;
use crate::digits::{
    char_to_digit, dec_digits, digits_val, is_digit_char, lemma_dec_digits, lemma_digits_val_prefix,
    lemma_digits_val_push, push_decimal,
};
use crate::text::push_char;

verus! {

/// One platform's stored cursor.
#[derive(Debug, Clone, PartialEq, Eq)]
pub struct StateEntry {
    pub platform: String,
    pub last_id: u64,
}

/// The mathematical shape of the stored state: platform characters and
/// cursor value per entry, in storage order.
pub open spec fn entries_view(es: Seq<StateEntry>) -> Seq<(Seq<char>, u64)> {
    es.map_values(|e: StateEntry| (e.platform@, e.last_id))
}

/// A platform name the document can carry verbatim: printable and free
/// of the two JSON string metacharacters.
pub open spec fn simple_key(k: Seq<char>) -> bool {
    forall|i: int| 0 <= i < k.len() ==> (k[i] as u32) >= 32 && k[i] != '"' && k[i] != '\\'
}

/// Well-formed state: every key simple, no key twice.
pub open spec fn entries_wf(es: Seq<(Seq<char>, u64)>) -> bool {
    &&& forall|i: int| 0 <= i < es.len() ==> simple_key(#[trigger] es[i].0)
    &&& forall|i: int, j: int| 0 <= i < j < es.len() ==> es[i].0 != es[j].0
}

/// One line of the document body; the final line carries no comma.
pub open spec fn entry_line(k: Seq<char>, v: u64, last: bool) -> Seq<char> {
    seq![' ', ' ', '"'] + k + seq!['"', ':', ' '] + dec_digits(v as nat) + (if last {
        seq!['\n']
    } else {
        seq![',', '\n']
    })
}

/// The document body: one line per entry, in order.
pub open spec fn lines_of(es: Seq<(Seq<char>, u64)>) -> Seq<char>
    decreases es.len(),
{
    if es.len() == 0 {
        Seq::empty()
    } else {
        entry_line(es[0].0, es[0].1, es.len() == 1) + lines_of(es.drop_first())
    }
}

/// The canonical rendering of the whole document.
pub open spec fn state_doc(es: Seq<(Seq<char>, u64)>) -> Seq<char> {
    if es.len() == 0 {
        seq!['{', '}', '\n']
    } else {
        seq!['{', '\n'] + lines_of(es) + seq!['}', '\n']
    }
}

/// Consume a key up to its closing quote: the key characters and what
/// follows the quote.
pub open spec fn parse_key(s: Seq<char>) -> Option<(Seq<char>, Seq<char>)>
    decreases s.len(),
{
    if s.len() == 0 {
        None
    } else if s[0] == '"' {
        Some((Seq::empty(), s.drop_first()))
    } else {
        match parse_key(s.drop_first()) {
            Some((k, r)) => Some((seq![s[0]] + k, r)),
            None => None,
        }
    }
}

/// Consume the longest digit run: the run and what follows it.
pub open spec fn parse_num(s: Seq<char>) -> (Seq<char>, Seq<char>)
    decreases s.len(),
{
    if s.len() == 0 || !is_digit_char(s[0]) {
        (Seq::empty(), s)
    } else {
        let (run, rest) = parse_num(s.drop_first());
        (seq![s[0]] + run, rest)
    }
}

/// Read the document body: entry lines until the closing brace line.
pub open spec fn parse_lines(s: Seq<char>) -> Option<Seq<(Seq<char>, u64)>>
    decreases s.len(),
{
    if s == seq!['}', '\n'] {
        Some(Seq::empty())
    } else if s.len() >= 3 && s[0] == ' ' && s[1] == ' ' && s[2] == '"' {
        match parse_key(s.skip(3)) {
            Some((k, r1)) => if r1.len() >= 2 && r1[0] == ':' && r1[1] == ' ' {
                let (run, r2) = parse_num(r1.skip(2));
                if run.len() >= 1 && digits_val(run) <= u64::MAX as nat {
                    let v = digits_val(run) as u64;
                    if r2.len() >= 1 && r2[0] == '\n' && r2.len() < s.len() {
                        match parse_lines(r2.skip(1)) {
                            Some(rest) => Some(seq![(k, v)] + rest),
                            None => None,
                        }
                    } else if r2.len() >= 2 && r2[0] == ',' && r2[1] == '\n' && r2.len() < s.len() {
                        match parse_lines(r2.skip(2)) {
                            Some(rest) => Some(seq![(k, v)] + rest),
                            None => None,
                        }
                    } else {
                        None
                    }
                } else {
                    None
                }
            } else {
                None
            },
            None => None,
        }
    } else {
        None
    }
}

/// Read a whole document.
pub open spec fn spec_parse(s: Seq<char>) -> Option<Seq<(Seq<char>, u64)>> {
    if s == seq!['{', '}', '\n'] {
        Some(Seq::empty())
    } else if s.len() >= 2 && s[0] == '{' && s[1] == '\n' {
        parse_lines(s.skip(2))
    } else {
        None
    }
}

/// Render the whole document.
pub fn render_state_doc(entries: &Vec<StateEntry>) -> (r: String)
    ensures
        r@ == state_doc(entries_view(entries@)),
{
    let ghost v = entries_view(entries@);
    let n = entries.len();
    let mut out = String::new();
    push_char(&mut out, '{');
    if n == 0 {
        push_char(&mut out, '}');
        push_char(&mut out, '\n');
        proof {
            assert(out@ =~= state_doc(v));
        }
        return out;
    }
    push_char(&mut out, '\n');
    proof {
        assert(v.skip(0) =~= v);
        assert(out@ =~= seq!['{', '\n']);
    }
    let mut i: usize = 0;
    while i < n
        invariant
            n == entries.len(),
            n == v.len(),
            n > 0,
            v == entries_view(entries@),
            0 <= i <= n,
            out@ + lines_of(v.skip(i as int)) =~= seq!['{', '\n'] + lines_of(v),
        decreases n - i,
    {
        let ghost out0 = out@;
        let e = &entries[i];
        push_char(&mut out, ' ');
        push_char(&mut out, ' ');
        push_char(&mut out, '"');
        out.append(e.platform.as_str());
        push_char(&mut out, '"');
        push_char(&mut out, ':');
        push_char(&mut out, ' ');
        push_decimal(&mut out, e.last_id);
        if i + 1 < n {
            push_char(&mut out, ',');
        }
        push_char(&mut out, '\n');
        proof {
            let last = i + 1 == n;
            assert(v[i as int] == (e.platform@, e.last_id));
            assert(out@ =~= out0 + entry_line(v[i as int].0, v[i as int].1, last));
            assert(v.skip(i as int).len() == n - i);
            assert(v.skip(i as int)[0] == v[i as int]);
            assert(v.skip(i as int).drop_first() =~= v.skip(i + 1));
            assert(lines_of(v.skip(i as int)) == entry_line(v[i as int].0, v[i as int].1, last)
                + lines_of(v.skip(i + 1)));
            assert(out@ + lines_of(v.skip(i + 1)) =~= seq!['{', '\n'] + lines_of(v));
        }
        i += 1;
    }
    push_char(&mut out, '}');
    push_char(&mut out, '\n');
    proof {
        assert(v.skip(n as int) =~= Seq::<(Seq<char>, u64)>::empty());
        assert(lines_of(v.skip(n as int)) =~= Seq::<char>::empty());
        assert(out@ =~= state_doc(v));
    }
    out
}

/// Scan a key from position `i`, mirroring `parse_key` on the tail of
/// the text.
fn parse_key_at(text: &str, i: usize) -> (r: Option<(String, usize)>)
    requires
        i <= text@.len(),
    ensures
        match r {
            Some(kj) => i < kj.1 <= text@.len() && parse_key(text@.skip(i as int)) == Some(
                (kj.0@, text@.skip(kj.1 as int)),
            ),
            None => parse_key(text@.skip(i as int)) is None,
        },
    decreases text@.len() - i,
{
    let n = text.unicode_len();
    if i >= n {
        proof {
            assert(text@.skip(i as int) =~= Seq::<char>::empty());
        }
        return None;
    }
    let c = text.get_char(i);
    proof {
        assert(text@.skip(i as int)[0] == c);
        assert(text@.skip(i as int).drop_first() =~= text@.skip(i + 1));
    }
    if c == '"' {
        Some((String::new(), i + 1))
    } else {
        match parse_key_at(text, i + 1) {
            Some((k, j)) => {
                let mut s0 = String::new();
                push_char(&mut s0, c);
                s0.append(k.as_str());
                proof {
                    assert(s0@ =~= seq![c] + k@);
                }
                Some((s0, j))
            },
            None => None,
        }
    }
}

/// Find the end of the digit run starting at `i`, mirroring `parse_num`
/// on the tail of the text.
fn digit_run_end_at(text: &str, i: usize) -> (j: usize)
    requires
        i <= text@.len(),
    ensures
        i <= j <= text@.len(),
        parse_num(text@.skip(i as int)) == (text@.subrange(i as int, j as int), text@.skip(
            j as int,
        )),
        forall|m: int| i <= m < j ==> is_digit_char(#[trigger] text@[m]),
    decreases text@.len() - i,
{
    let n = text.unicode_len();
    if i >= n {
        proof {
            assert(text@.skip(i as int) =~= Seq::<char>::empty());
            assert(text@.subrange(i as int, i as int) =~= Seq::<char>::empty());
        }
        return i;
    }
    let c = text.get_char(i);
    proof {
        assert(text@.skip(i as int)[0] == c);
        assert(text@.skip(i as int).drop_first() =~= text@.skip(i + 1));
    }
    match char_to_digit(c) {
        None => {
            proof {
                assert(text@.subrange(i as int, i as int) =~= Seq::<char>::empty());
            }
            i
        },
        Some(_) => {
            let j = digit_run_end_at(text, i + 1);
            proof {
                assert(text@.subrange(i as int, j as int) =~= seq![c] + text@.subrange(
                    i + 1,
                    j as int,
                ));
            }
            j
        },
    }
}

/// Read the value of the digit run `[i, j)`, refusing values beyond the
/// cursor type's range.
fn digit_run_value(text: &str, i: usize, j: usize) -> (r: Option<u64>)
    requires
        i <= j <= text@.len(),
        forall|m: int| i <= m < j ==> is_digit_char(#[trigger] text@[m]),
    ensures
        match r {
            Some(v) => v == digits_val(text@.subrange(i as int, j as int)),
            None => digits_val(text@.subrange(i as int, j as int)) > u64::MAX as nat,
        },
{
    let mut acc: u64 = 0;
    let mut k: usize = i;
    proof {
        assert(text@.subrange(i as int, i as int) =~= Seq::<char>::empty());
    }
    while k < j
        invariant
            i <= k <= j <= text@.len(),
            forall|m: int| i <= m < j ==> is_digit_char(#[trigger] text@[m]),
            acc == digits_val(text@.subrange(i as int, k as int)),
        decreases j - k,
    {
        let c = text.get_char(k);
        let d = match char_to_digit(c) {
            Some(d) => d,
            None => {
                proof {
                    assert(is_digit_char(text@[k as int]));
                }
                return None;  // unreachable: the run holds digits only
            },
        };
        proof {
            lemma_digits_val_push(text@.subrange(i as int, k as int), c);
            assert(text@.subrange(i as int, k + 1) =~= text@.subrange(i as int, k as int).push(c));
        }
        if acc > (u64::MAX - d) / 10 {
            proof {
                let q = ((u64::MAX - d) / 10) as int;
                vstd::arithmetic::div_mod::lemma_fundamental_div_mod((u64::MAX - d) as int, 10);
                assert(acc * 10 + d > u64::MAX) by (nonlinear_arith)
                    requires
                        acc > q,
                        q * 10 + ((u64::MAX - d) as int % 10) == u64::MAX - d,
                        0 <= (u64::MAX - d) as int % 10 < 10,
                        d <= 9,
                ;
                assert(digits_val(text@.subrange(i as int, k + 1)) > u64::MAX as nat);
                let whole = text@.subrange(i as int, j as int);
                lemma_digits_val_prefix(whole, k + 1 - i);
                assert(whole.subrange(0, k + 1 - i) =~= text@.subrange(i as int, k + 1));
            }
            return None;
        }
        proof {
            let q = ((u64::MAX - d) / 10) as int;
            vstd::arithmetic::div_mod::lemma_fundamental_div_mod((u64::MAX - d) as int, 10);
            assert(acc * 10 + d <= u64::MAX) by (nonlinear_arith)
                requires
                    acc <= q,
                    q * 10 + ((u64::MAX - d) as int % 10) == u64::MAX - d,
                    0 <= (u64::MAX - d) as int % 10 < 10,
                    0 <= d,
            ;
        }
        acc = acc * 10 + d;
        k += 1;
    }
    proof {
        assert(text@.subrange(i as int, k as int) =~= text@.subrange(i as int, j as int));
    }
    Some(acc)
}

/// Read a whole document, returning exactly what `spec_parse` reads.
pub fn parse_state_doc(text: &str) -> (r: Option<Vec<StateEntry>>)
    ensures
        match r {
            Some(es) => spec_parse(text@) == Some(entries_view(es@)),
            None => spec_parse(text@) is None,
        },
{
    let n = text.unicode_len();
    if n == 3 && text.get_char(0) == '{' && text.get_char(1) == '}' && text.get_char(2) == '\n' {
        proof {
            assert(text@ =~= seq!['{', '}', '\n']);
            assert(entries_view(Seq::<StateEntry>::empty()) =~= Seq::<(Seq<char>, u64)>::empty());
        }
        let es: Vec<StateEntry> = Vec::new();
        return Some(es);
    }
    proof {
        assert(text@ != seq!['{', '}', '\n']) by {
            if text@ == seq!['{', '}', '\n'] {
                assert(text@.len() == 3);
                assert(text@[0] == '{' && text@[1] == '}' && text@[2] == '\n');
            }
        }
    }
    if !(n >= 2) {
        return None;
    }
    if !(text.get_char(0) == '{' && text.get_char(1) == '\n') {
        return None;
    }
    let mut acc: Vec<StateEntry> = Vec::new();
    let mut pos: usize = 2;
    proof {
        assert(entries_view(acc@) =~= Seq::<(Seq<char>, u64)>::empty());
    }
    loop
        invariant
            n == text@.len(),
            2 <= pos <= n,
            text@[0] == '{' && text@[1] == '\n',
            text@ != seq!['{', '}', '\n'],
            n >= 2,
            match parse_lines(text@.skip(pos as int)) {
                Some(rest) => spec_parse(text@) == Some(entries_view(acc@) + rest),
                None => spec_parse(text@) is None,
            },
        decreases n - pos,
    {
        let ghost sub = text@.skip(pos as int);
        // The closing brace line ends the document.
        if n - pos == 2 && text.get_char(pos) == '}' && text.get_char(pos + 1) == '\n' {
            proof {
                assert(sub =~= seq!['}', '\n']);
                assert(parse_lines(sub) == Some(Seq::<(Seq<char>, u64)>::empty()));
                assert(entries_view(acc@) + Seq::<(Seq<char>, u64)>::empty() =~= entries_view(
                    acc@,
                ));
            }
            return Some(acc);
        }
        proof {
            assert(sub != seq!['}', '\n']) by {
                if sub == seq!['}', '\n'] {
                    assert(sub.len() == 2);
                    assert(sub[0] == '}' && sub[1] == '\n');
                    assert(text@[pos as int] == '}' && text@[pos + 1] == '\n');
                }
            }
        }
        // An entry line starts with two spaces and an opening quote.
        if !(n - pos >= 3 && text.get_char(pos) == ' ' && text.get_char(pos + 1) == ' '
            && text.get_char(pos + 2) == '"') {
            proof {
                assert(!(sub.len() >= 3 && sub[0] == ' ' && sub[1] == ' ' && sub[2] == '"'));
            }
            return None;
        }
        proof {
            assert(sub.len() >= 3 && sub[0] == ' ' && sub[1] == ' ' && sub[2] == '"');
            assert(sub.skip(3) =~= text@.skip(pos + 3));
        }
        let (key, after_key) = match parse_key_at(text, pos + 3) {
            Some(kj) => kj,
            None => {
                return None;
            },
        };
        proof {
            assert(parse_key(sub.skip(3)) == Some((key@, text@.skip(after_key as int))));
        }
        let ghost r1 = text@.skip(after_key as int);
        if !(n - after_key >= 2 && text.get_char(after_key) == ':' && text.get_char(after_key + 1)
            == ' ') {
            proof {
                assert(r1.len() == n - after_key);
                assert(n - after_key >= 2 ==> (r1[0] == text@[after_key as int] && r1[1]
                    == text@[after_key + 1]));
                assert(!(r1.len() >= 2 && r1[0] == ':' && r1[1] == ' '));
            }
            return None;
        }
        proof {
            assert(r1.len() >= 2 && r1[0] == ':' && r1[1] == ' ');
            assert(r1.skip(2) =~= text@.skip(after_key + 2));
        }
        let d0 = after_key + 2;
        let dend = digit_run_end_at(text, d0);
        let ghost run = text@.subrange(d0 as int, dend as int);
        let ghost r2 = text@.skip(dend as int);
        proof {
            assert(parse_num(r1.skip(2)) == (run, r2));
        }
        if dend == d0 {
            proof {
                assert(run.len() == 0);
            }
            return None;
        }
        let v = match digit_run_value(text, d0, dend) {
            Some(v) => v,
            None => {
                proof {
                    assert(!(digits_val(run) <= u64::MAX as nat));
                }
                return None;
            },
        };
        proof {
            assert(run.len() >= 1 && digits_val(run) <= u64::MAX as nat && v == digits_val(run));
        }
        // The line ends here, with a comma on every entry but the last.
        let next_pos: usize;
        if dend < n && text.get_char(dend) == '\n' {
            next_pos = dend + 1;
            proof {
                assert(r2.len() == n - dend);
                assert(r2[0] == '\n');
                assert(r2.len() >= 1 && r2.len() < sub.len());
                assert(r2.skip(1) =~= text@.skip(next_pos as int));
            }
        } else if n - dend >= 2 && text.get_char(dend) == ',' && text.get_char(dend + 1) == '\n' {
            next_pos = dend + 2;
            proof {
                assert(r2.len() == n - dend);
                assert(r2[0] == ',' && r2[1] == '\n');
                assert(r2.len() >= 2 && r2.len() < sub.len());
                assert(r2.skip(2) =~= text@.skip(next_pos as int));
            }
        } else {
            proof {
                assert(r2.len() == n - dend);
                assert(r2.len() >= 1 ==> r2[0] == text@[dend as int]);
                assert(r2.len() >= 2 ==> r2[1] == text@[dend + 1]);
                assert(!(r2.len() >= 1 && r2[0] == '\n' && r2.len() < sub.len()));
                assert(!(r2.len() >= 2 && r2[0] == ',' && r2[1] == '\n' && r2.len() < sub.len()));
            }
            return None;
        }
        let ghost acc0 = acc@;
        acc.push(StateEntry { platform: key, last_id: v });
        proof {
            assert(parse_lines(sub) == match parse_lines(text@.skip(next_pos as int)) {
                Some(rest) => Some(seq![(key@, v)] + rest),
                None => None::<Seq<(Seq<char>, u64)>>,
            });
            assert(entries_view(acc@) =~= entries_view(acc0) + seq![(key@, v)]);
            let pl = parse_lines(text@.skip(next_pos as int));
            if pl is Some {
                let rest = pl->Some_0;
                assert(entries_view(acc0) + (seq![(key@, v)] + rest) =~= entries_view(acc@)
                    + rest);
            }
        }
        pos = next_pos;
    }
}

/// Reading the canonical rendering of a key stops exactly at its closing
/// quote.
proof fn lemma_parse_key_round_trip(k: Seq<char>, rest: Seq<char>)
    requires
        simple_key(k),
    ensures
        parse_key(k + seq!['"'] + rest) == Some((k, rest)),
    decreases k.len(),
{
    let s = k + seq!['"'] + rest;
    if k.len() == 0 {
        assert(s[0] == '"');
        assert(s.drop_first() =~= rest);
    } else {
        assert(s[0] == k[0]);
        assert(s[0] != '"');
        assert(s.drop_first() =~= k.drop_first() + seq!['"'] + rest);
        assert(simple_key(k.drop_first()));
        lemma_parse_key_round_trip(k.drop_first(), rest);
        assert(seq![s[0]] + k.drop_first() =~= k);
    }
}

/// Reading a digit run stops exactly where the digits end.
proof fn lemma_parse_num_round_trip(d: Seq<char>, rest: Seq<char>)
    requires
        forall|i: int| 0 <= i < d.len() ==> is_digit_char(#[trigger] d[i]),
        rest.len() == 0 || !is_digit_char(rest[0]),
    ensures
        parse_num(d + rest) == (d, rest),
    decreases d.len(),
{
    let s = d + rest;
    if d.len() == 0 {
        assert(s =~= rest);
        assert(d + rest =~= rest);
        if rest.len() > 0 {
            assert(!is_digit_char(s[0]));
        }
        assert(parse_num(s) == (Seq::<char>::empty(), s));
        assert(d =~= Seq::<char>::empty());
    } else {
        assert(s[0] == d[0]);
        assert(is_digit_char(s[0]));
        assert(s.drop_first() =~= d.drop_first() + rest);
        lemma_parse_num_round_trip(d.drop_first(), rest);
        assert(seq![s[0]] + d.drop_first() =~= d);
    }
}

/// Reading the rendered body returns exactly the rendered entries.
proof fn lemma_parse_lines_round_trip(es: Seq<(Seq<char>, u64)>)
    requires
        forall|i: int| 0 <= i < es.len() ==> simple_key(#[trigger] es[i].0),
    ensures
        parse_lines(lines_of(es) + seq!['}', '\n']) == Some(es),
    decreases es.len(),
{
    let s = lines_of(es) + seq!['}', '\n'];
    if es.len() == 0 {
        assert(s =~= seq!['}', '\n']);
        assert(es =~= Seq::<(Seq<char>, u64)>::empty());
    } else {
        let k = es[0].0;
        let v = es[0].1;
        let last = es.len() == 1;
        let tail = lines_of(es.drop_first()) + seq!['}', '\n'];
        let digits = dec_digits(v as nat);
        lemma_dec_digits(v as nat);
        let ending: Seq<char> = if last {
            seq!['\n']
        } else {
            seq![',', '\n']
        };
        assert(s =~= seq![' ', ' ', '"'] + (k + seq!['"'] + (seq![':', ' '] + digits + ending
            + tail)));
        assert(s.len() >= 3 && s[0] == ' ' && s[1] == ' ' && s[2] == '"');
        assert(s != seq!['}', '\n']);
        let r1 = seq![':', ' '] + digits + ending + tail;
        assert(s.skip(3) =~= k + seq!['"'] + r1);
        lemma_parse_key_round_trip(k, r1);
        assert(r1.len() >= 2 && r1[0] == ':' && r1[1] == ' ');
        let r2 = ending + tail;
        assert(r1.skip(2) =~= digits + r2);
        assert(r2.len() > 0 && !is_digit_char(r2[0]));
        lemma_parse_num_round_trip(digits, r2);
        assert(digits.len() >= 1);
        assert(digits_val(digits) == v as nat);
        assert(digits_val(digits) <= u64::MAX as nat);
        // the rest of the line is strictly shorter than the whole line
        assert(s.len() == 3 + k.len() + 1 + r1.len());
        assert(r2.len() < s.len());
        lemma_parse_lines_round_trip(es.drop_first());
        if last {
            assert(es.drop_first().len() == 0);
            assert(lines_of(es.drop_first()) =~= Seq::<char>::empty());
            assert(r2[0] == '\n');
            assert(r2.skip(1) =~= tail);
            assert(tail =~= seq!['}', '\n']);
            assert(parse_lines(r2.skip(1)) == Some(Seq::<(Seq<char>, u64)>::empty()));
            assert(seq![(k, v)] + Seq::<(Seq<char>, u64)>::empty() =~= es);
        } else {
            assert(r2[0] == ',' && r2[1] == '\n');
            assert(r2.skip(2) =~= tail);
            assert(parse_lines(r2.skip(2)) == Some(es.drop_first()));
            assert(seq![(k, v)] + es.drop_first() =~= es);
        }
    }
}

/// Round trip: reading a rendered document returns exactly the entries
/// it was rendered from. Together with the contracts of
/// `render_state_doc` and `parse_state_doc`, storing the state and
/// loading it afresh restores it unchanged.
pub proof fn lemma_state_doc_round_trip(es: Seq<(Seq<char>, u64)>)
    requires
        forall|i: int| 0 <= i < es.len() ==> simple_key(#[trigger] es[i].0),
    ensures
        spec_parse(state_doc(es)) == Some(es),
{
    let s = state_doc(es);
    if es.len() == 0 {
        assert(s == seq!['{', '}', '\n']);
        assert(es =~= Seq::<(Seq<char>, u64)>::empty());
    } else {
        lemma_parse_lines_round_trip(es);
        assert(lines_of(es).len() > 0) by {
            assert(entry_line(es[0].0, es[0].1, es.len() == 1).len() > 0);
        }
        assert(s != seq!['{', '}', '\n']) by {
            assert(s.len() == 2 + lines_of(es).len() + 2);
            if s == seq!['{', '}', '\n'] {
                assert(s.len() == 3);
                assert(s[1] == '}');
            }
            assert(s[1] == '\n');
        }
        assert(s.len() >= 2 && s[0] == '{' && s[1] == '\n');
        assert(s.skip(2) =~= lines_of(es) + seq!['}', '\n']);
    }
}

} // verus!
