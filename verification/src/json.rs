//! JSON rendering of the resolved configuration, for the endpoint that
//! returns the full configuration. The document has the shape
//! `{"outputs":{<slug>:<definition>,...},"data_dir":<path>}` with the
//! definitions in configuration order; rendering is a pure function of
//! the registry, so repeated renderings are byte-identical.

use vstd::prelude::*;
use vstd::string::StrSliceExecFns;
use vstd::string::StringExecFns;
use crate::config::OutputConfig;
use crate::config::ResolvedConfig;

verus! {

/// The lower-case hexadecimal digit for `d`.
pub open spec fn hex_digit(d: u32) -> char {
    if d == 0 {
        '0'
    } else if d == 1 {
        '1'
    } else if d == 2 {
        '2'
    } else if d == 3 {
        '3'
    } else if d == 4 {
        '4'
    } else if d == 5 {
        '5'
    } else if d == 6 {
        '6'
    } else if d == 7 {
        '7'
    } else if d == 8 {
        '8'
    } else if d == 9 {
        '9'
    } else if d == 10 {
        'a'
    } else if d == 11 {
        'b'
    } else if d == 12 {
        'c'
    } else if d == 13 {
        'd'
    } else if d == 14 {
        'e'
    } else {
        'f'
    }
}

/// How one character is written inside a JSON string literal: quotes and
/// backslashes are escaped, control characters take the `\u00XX` form,
/// everything else stands as itself.
pub open spec fn escape_char(c: char) -> Seq<char> {
    if c == '"' {
        seq!['\\', '"']
    } else if c == '\\' {
        seq!['\\', '\\']
    } else if (c as u32) < 0x20 {
        seq!['\\', 'u', '0', '0', hex_digit((c as u32) / 16), hex_digit((c as u32) % 16)]
    } else {
        seq![c]
    }
}

/// The body of a JSON string literal for `s`.
pub open spec fn escape_string(s: Seq<char>) -> Seq<char>
    decreases s.len(),
{
    if s.len() == 0 {
        Seq::empty()
    } else {
        escape_char(s[0]) + escape_string(s.drop_first())
    }
}

/// The JSON string literal for `s`, quotes included.
pub open spec fn json_string(s: Seq<char>) -> Seq<char> {
    seq!['"'] + escape_string(s) + seq!['"']
}

/// The comma-separated JSON string literals for `items[i..]`.
pub open spec fn json_items_from(items: Seq<String>, i: int) -> Seq<char>
    decreases items.len() - i,
{
    if i < 0 || i >= items.len() {
        Seq::empty()
    } else if i == items.len() - 1 {
        json_string(items[i]@)
    } else {
        json_string(items[i]@) + seq![','] + json_items_from(items, i + 1)
    }
}

/// The JSON object for one output definition.
pub open spec fn spec_output_json(oc: OutputConfig) -> Seq<char> {
    seq!['{', '"', 's', 'l', 'u', 'g', '"', ':'] + json_string(oc.slug@) + seq![
        ',',
        '"',
        'c',
        'm',
        'd',
        '"',
        ':',
    ] + json_string(oc.cmd@) + seq![',', '"', 'a', 'r', 'g', 's', '"', ':', '['] + json_items_from(
        oc.args@,
        0,
    ) + seq![']', '}']
}

/// The comma-separated `<slug>:<definition>` members for `defs[i..]`.
pub open spec fn json_entries_from(defs: Seq<OutputConfig>, i: int) -> Seq<char>
    decreases defs.len() - i,
{
    if i < 0 || i >= defs.len() {
        Seq::empty()
    } else if i == defs.len() - 1 {
        json_string(defs[i].slug@) + seq![':'] + spec_output_json(defs[i])
    } else {
        json_string(defs[i].slug@) + seq![':'] + spec_output_json(defs[i]) + seq![',']
            + json_entries_from(defs, i + 1)
    }
}

/// The JSON document for the whole resolved configuration.
pub open spec fn spec_config_json(rc: ResolvedConfig) -> Seq<char> {
    seq!['{', '"', 'o', 'u', 't', 'p', 'u', 't', 's', '"', ':', '{'] + json_entries_from(
        rc.outputs@,
        0,
    ) + seq!['}', ',', '"', 'd', 'a', 't', 'a', '_', 'd', 'i', 'r', '"', ':'] + json_string(
        rc.data_dir@,
    ) + seq!['}']
}

/// Escaping a concatenation escapes the pieces.
proof fn lemma_escape_concat(a: Seq<char>, b: Seq<char>)
    ensures
        escape_string(a + b) == escape_string(a) + escape_string(b),
    decreases a.len(),
{
    if a.len() == 0 {
        assert(a + b =~= b);
        assert(escape_string(a) + escape_string(b) =~= escape_string(b));
    } else {
        assert((a + b).drop_first() =~= a.drop_first() + b);
        assert((a + b)[0] == a[0]);
        lemma_escape_concat(a.drop_first(), b);
        assert(escape_char(a[0]) + (escape_string(a.drop_first()) + escape_string(b)) =~= (
        escape_char(a[0]) + escape_string(a.drop_first())) + escape_string(b));
    }
}

/// Escaping one more character appends its escape.
proof fn lemma_escape_snoc(s: Seq<char>, i: int)
    requires
        0 <= i < s.len(),
    ensures
        escape_string(s.take(i + 1)) == escape_string(s.take(i)) + escape_char(s[i]),
{
    assert(s.take(i + 1) =~= s.take(i) + seq![s[i]]);
    lemma_escape_concat(s.take(i), seq![s[i]]);
    assert(escape_string(seq![s[i]]) == escape_char(s[i])) by {
        assert(seq![s[i]].drop_first() =~= Seq::<char>::empty());
        assert(escape_string(Seq::<char>::empty()) == Seq::<char>::empty());
        assert(escape_char(s[i]) + Seq::<char>::empty() =~= escape_char(s[i]));
    }
}

/// The digit character for a value below sixteen.
fn hex_digit_char(d: u32) -> (r: &'static str)
    requires
        d < 16,
    ensures
        r@ == seq![hex_digit(d)],
{
    proof {
        reveal_strlit("0");
        reveal_strlit("1");
        reveal_strlit("2");
        reveal_strlit("3");
        reveal_strlit("4");
        reveal_strlit("5");
        reveal_strlit("6");
        reveal_strlit("7");
        reveal_strlit("8");
        reveal_strlit("9");
        reveal_strlit("a");
        reveal_strlit("b");
        reveal_strlit("c");
        reveal_strlit("d");
        reveal_strlit("e");
        reveal_strlit("f");
    }
    match d {
        0 => "0",
        1 => "1",
        2 => "2",
        3 => "3",
        4 => "4",
        5 => "5",
        6 => "6",
        7 => "7",
        8 => "8",
        9 => "9",
        10 => "a",
        11 => "b",
        12 => "c",
        13 => "d",
        14 => "e",
        _ => "f",
    }
}

/// Appends the escaped form of `s` to `out`.
fn append_escaped(out: &mut String, s: &str)
    ensures
        final(out)@ == old(out)@ + escape_string(s@),
{
    let n = s.unicode_len();
    let mut i: usize = 0;
    proof {
        assert(s@.take(0) =~= Seq::<char>::empty());
        assert(old(out)@ + escape_string(s@.take(0)) =~= old(out)@);
    }
    while i < n
        invariant
            n == s@.len(),
            i <= n,
            out@ == old(out)@ + escape_string(s@.take(i as int)),
        decreases n - i,
    {
        let c = s.get_char(i);
        if c == '"' {
            proof {
                reveal_strlit("\\\"");
            }
            out.append("\\\"");
            proof {
                assert("\\\""@ =~= escape_char(c));
            }
        } else if c == '\\' {
            proof {
                reveal_strlit("\\\\");
            }
            out.append("\\\\");
            proof {
                assert("\\\\"@ =~= escape_char(c));
            }
        } else if (c as u32) < 0x20 {
            proof {
                reveal_strlit("\\u00");
            }
            out.append("\\u00");
            out.append(hex_digit_char((c as u32) / 16));
            out.append(hex_digit_char((c as u32) % 16));
            proof {
                assert("\\u00"@ + seq![hex_digit((c as u32) / 16)] + seq![
                    hex_digit((c as u32) % 16),
                ] =~= escape_char(c));
            }
        } else {
            let piece = s.substring_char(i, i + 1);
            out.append(piece);
            proof {
                assert(piece@ =~= escape_char(c));
            }
        }
        proof {
            lemma_escape_snoc(s@, i as int);
        }
        i = i + 1;
    }
    proof {
        assert(s@.take(n as int) =~= s@);
    }
}

/// Appends the JSON string literal for `s` to `out`.
fn append_json_string(out: &mut String, s: &str)
    ensures
        final(out)@ == old(out)@ + json_string(s@),
{
    proof {
        reveal_strlit("\"");
    }
    out.append("\"");
    append_escaped(out, s);
    out.append("\"");
    proof {
        assert(final(out)@ =~= old(out)@ + json_string(s@));
    }
}

/// Appends the comma-separated JSON string literals for `items` to `out`.
fn append_json_items(out: &mut String, items: &Vec<String>)
    ensures
        final(out)@ == old(out)@ + json_items_from(items@, 0),
{
    let n = items.len();
    let mut i: usize = 0;
    while i < n
        invariant
            n == items@.len(),
            i <= n,
            out@ + json_items_from(items@, i as int) == old(out)@ + json_items_from(items@, 0),
        decreases n - i,
    {
        append_json_string(out, items[i].as_str());
        if i + 1 < n {
            proof {
                reveal_strlit(",");
            }
            out.append(",");
            proof {
                assert(","@ =~= seq![',']);
            }
        }
        i = i + 1;
    }
}

impl OutputConfig {
    /// Renders this definition as a JSON object.
    pub fn to_json(&self) -> (r: String)
        ensures
            r@ == spec_output_json(*self),
    {
        let mut out = String::new();
        self.append_json(&mut out);
        out
    }

    /// Appends the JSON object for this definition to `out`.
    fn append_json(&self, out: &mut String)
        ensures
            final(out)@ == old(out)@ + spec_output_json(*self),
    {
        proof {
            reveal_strlit("{\"slug\":");
            reveal_strlit(",\"cmd\":");
            reveal_strlit(",\"args\":[");
            reveal_strlit("]}");
        }
        out.append("{\"slug\":");
        append_json_string(out, self.slug.as_str());
        out.append(",\"cmd\":");
        append_json_string(out, self.cmd.as_str());
        out.append(",\"args\":[");
        append_json_items(out, &self.args);
        out.append("]}");
        proof {
            assert(final(out)@ =~= old(out)@ + spec_output_json(*self));
        }
    }
}

impl ResolvedConfig {
    /// Renders the whole resolved configuration as one JSON document:
    /// the definitions keyed by slug, in configuration order, and the
    /// data directory. A pure function of the registry, so every call on
    /// the same registry yields the same text.
    pub fn to_json(&self) -> (r: String)
        ensures
            r@ == spec_config_json(*self),
    {
        proof {
            reveal_strlit("{\"outputs\":{");
            reveal_strlit("},\"data_dir\":");
            reveal_strlit("}");
            reveal_strlit(":");
        }
        let mut out = String::from_str("{\"outputs\":{");
        let n = self.outputs.len();
        let mut i: usize = 0;
        while i < n
            invariant
                n == self.outputs@.len(),
                i <= n,
                out@ + json_entries_from(self.outputs@, i as int) == "{\"outputs\":{"@
                    + json_entries_from(self.outputs@, 0),
            decreases n - i,
        {
            proof {
                reveal_strlit(":");
                reveal_strlit(",");
            }
            append_json_string(&mut out, self.outputs[i].slug.as_str());
            out.append(":");
            self.outputs[i].append_json(&mut out);
            if i + 1 < n {
                out.append(",");
                proof {
                    assert(","@ =~= seq![',']);
                }
            }
            proof {
                assert(":"@ =~= seq![':']);
            }
            i = i + 1;
        }
        out.append("},\"data_dir\":");
        append_json_string(&mut out, self.data_dir.as_str());
        out.append("}");
        proof {
            assert(out@ =~= spec_config_json(*self));
        }
        out
    }
}

/// Law: the configuration document is a function of the registry value
/// alone; registries holding equal definitions and data directory render
/// to identical text, so repeated renderings of one registry are
/// byte-identical.
pub proof fn lemma_config_json_deterministic(a: ResolvedConfig, b: ResolvedConfig)
    requires
        a.outputs@ == b.outputs@,
        a.data_dir@ == b.data_dir@,
    ensures
        spec_config_json(a) == spec_config_json(b),
{
}

} // verus!
