//! The append-only result file format: one header row, then one row per
//! matched repository, fields quoted exactly when they need to be.

use vstd::prelude::*;
use vstd::string::StringExecFns;
use crate::text::push_char;

verus! {

/// Whether a field must be quoted: it contains the delimiter, a quote or
/// a record terminator.
pub open spec fn needs_quote(s: Seq<char>) -> bool {
    exists|i: int|
        0 <= i < s.len() && (s[i] == ',' || s[i] == '"' || s[i] == '\n' || s[i] == '\r')
}

/// The field's characters with every quote doubled.
pub open spec fn doubled_quotes(s: Seq<char>) -> Seq<char>
    decreases s.len(),
{
    if s.len() == 0 {
        Seq::empty()
    } else if s[0] == '"' {
        seq!['"', '"'] + doubled_quotes(s.drop_first())
    } else {
        seq![s[0]] + doubled_quotes(s.drop_first())
    }
}

/// A field as it is written: verbatim, or quoted with doubled quotes.
pub open spec fn csv_field(s: Seq<char>) -> Seq<char> {
    if needs_quote(s) {
        seq!['"'] + doubled_quotes(s) + seq!['"']
    } else {
        s
    }
}

/// A boolean as it is written.
pub open spec fn bool_text(b: bool) -> Seq<char> {
    if b {
        seq!['t', 'r', 'u', 'e']
    } else {
        seq!['f', 'a', 'l', 's', 'e']
    }
}

/// The header row, matching the record's field names in declaration
/// order.
pub open spec fn csv_header() -> Seq<char> {
    "id,name,has_cargo_toml,has_cargo_lock\n"@
}

/// One data row, fields in declaration order.
pub open spec fn csv_record(id: Seq<char>, name: Seq<char>, has_a: bool, has_b: bool) -> Seq<
    char,
> {
    csv_field(id) + seq![','] + csv_field(name) + seq![','] + bool_text(has_a) + seq![',']
        + bool_text(has_b) + seq!['\n']
}

/// Doubling quotes distributes over appending one character.
proof fn lemma_doubled_push(s: Seq<char>, c: char)
    ensures
        doubled_quotes(s.push(c)) == doubled_quotes(s) + (if c == '"' {
            seq!['"', '"']
        } else {
            seq![c]
        }),
    decreases s.len(),
{
    let tail: Seq<char> = if c == '"' {
        seq!['"', '"']
    } else {
        seq![c]
    };
    if s.len() == 0 {
        assert(s.push(c)[0] == c);
        assert(s.push(c).drop_first() =~= Seq::<char>::empty());
        assert(doubled_quotes(Seq::<char>::empty()) =~= Seq::<char>::empty());
        assert(doubled_quotes(s.push(c)) =~= tail);
        assert(doubled_quotes(s) + tail =~= tail);
    } else {
        assert(s.push(c)[0] == s[0]);
        assert(s.push(c).drop_first() =~= s.drop_first().push(c));
        lemma_doubled_push(s.drop_first(), c);
        if s[0] == '"' {
            assert(doubled_quotes(s.push(c)) =~= seq!['"', '"'] + doubled_quotes(s.drop_first())
                + tail);
            assert(doubled_quotes(s) + tail =~= seq!['"', '"'] + doubled_quotes(s.drop_first())
                + tail);
        } else {
            assert(doubled_quotes(s.push(c)) =~= seq![s[0]] + doubled_quotes(s.drop_first())
                + tail);
            assert(doubled_quotes(s) + tail =~= seq![s[0]] + doubled_quotes(s.drop_first())
                + tail);
        }
    }
}

/// Decide whether a field must be quoted.
fn field_needs_quote(f: &str) -> (r: bool)
    ensures
        r == needs_quote(f@),
{
    let n = f.unicode_len();
    let mut i: usize = 0;
    while i < n
        invariant
            n == f@.len(),
            0 <= i <= n,
            forall|j: int|
                0 <= j < i ==> !(f@[j] == ',' || f@[j] == '"' || f@[j] == '\n' || f@[j] == '\r'),
        decreases n - i,
    {
        let c = f.get_char(i);
        if c == ',' || c == '"' || c == '\n' || c == '\r' {
            return true;
        }
        i += 1;
    }
    false
}

/// Append one encoded field to `out`.
pub fn push_csv_field(out: &mut String, f: &str)
    ensures
        final(out)@ == old(out)@ + csv_field(f@),
{
    let n = f.unicode_len();
    if !field_needs_quote(f) {
        out.append(f);
        return ;
    }
    let ghost base = out@;
    push_char(out, '"');
    let mut i: usize = 0;
    proof {
        assert(f@.subrange(0, 0) =~= Seq::<char>::empty());
        assert(out@ =~= base + seq!['"'] + doubled_quotes(f@.subrange(0, 0)));
    }
    while i < n
        invariant
            n == f@.len(),
            0 <= i <= n,
            out@ == base + seq!['"'] + doubled_quotes(f@.subrange(0, i as int)),
        decreases n - i,
    {
        let c = f.get_char(i);
        proof {
            lemma_doubled_push(f@.subrange(0, i as int), c);
            assert(f@.subrange(0, i + 1) =~= f@.subrange(0, i as int).push(c));
        }
        if c == '"' {
            push_char(out, '"');
            push_char(out, '"');
        } else {
            push_char(out, c);
        }
        proof {
            assert(out@ =~= base + seq!['"'] + doubled_quotes(f@.subrange(0, i + 1)));
        }
        i += 1;
    }
    push_char(out, '"');
    proof {
        assert(f@.subrange(0, n as int) =~= f@);
        assert(out@ =~= base + csv_field(f@));
    }
}

/// Append one encoded boolean to `out`.
pub fn push_csv_bool(out: &mut String, b: bool)
    ensures
        final(out)@ == old(out)@ + bool_text(b),
{
    let ghost base = out@;
    if b {
        out.append("true");
        proof {
            reveal_strlit("true");
            assert(out@ =~= base + bool_text(b));
        }
    } else {
        out.append("false");
        proof {
            reveal_strlit("false");
            assert(out@ =~= base + bool_text(b));
        }
    }
}

/// The header row as a string.
pub fn render_csv_header() -> (r: String)
    ensures
        r@ == csv_header(),
{
    "id,name,has_cargo_toml,has_cargo_lock\n".to_owned()
}

} // verus!
