//! Report-export data and the CSV field encoding the exporter uses.
//! Writing the files is I/O done outside the library.

use vstd::prelude::*;

verus! {

/// Where an export landed and in which format.
#[derive(Debug, Clone)]
pub struct ExportResult {
    pub file_path: String,
    pub file_name: String,
    pub format: String,
}

/// The formats a report can be exported in.
#[derive(Debug, Clone, Copy, PartialEq, Eq, Structural)]
pub enum ExportFormat {
    Csv,
    Json,
    Png,
    Pdf,
}

/// Whether a CSV field must be quoted: it holds a comma, a quote or a
/// newline.
pub open spec fn spec_needs_quoting(s: Seq<char>) -> bool {
    exists|i: int| 0 <= i < s.len() && ((#[trigger] s[i]) == ',' || s[i] == '"' || s[i] == '\n')
}

/// The field's text with every quote doubled.
pub open spec fn spec_doubled_quotes(s: Seq<char>) -> Seq<char>
    decreases s.len(),
{
    if s.len() == 0 {
        Seq::empty()
    } else if s.last() == '"' {
        spec_doubled_quotes(s.drop_last()) + seq!['"', '"']
    } else {
        spec_doubled_quotes(s.drop_last()).push(s.last())
    }
}

/// A CSV field encoding: quoted with inner quotes doubled when the text
/// needs it, the text itself otherwise.
pub open spec fn spec_escape_csv(s: Seq<char>) -> Seq<char> {
    if spec_needs_quoting(s) {
        seq!['"'] + spec_doubled_quotes(s) + seq!['"']
    } else {
        s
    }
}

/// Encode one CSV field.
pub fn escape_csv_field(field: &str) -> (r: String)
    ensures
        r@ == spec_escape_csv(field@),
{
    let n = field.unicode_len();
    let mut needs = false;
    let mut i: usize = 0;
    while i < n
        invariant
            i <= n,
            n == field@.len(),
            needs == (exists|j: int|
                0 <= j < i && ((#[trigger] field@[j]) == ',' || field@[j] == '"' || field@[j]
                    == '\n')),
        decreases n - i,
    {
        let c = field.get_char(i);
        if c == ',' || c == '"' || c == '\n' {
            needs = true;
        }
        i += 1;
    }
    if !needs {
        let r = String::from_str(field);
        return r;
    }
    let mut r = String::new();
    r.push('"');
    let mut i: usize = 0;
    proof {
        assert(field@.subrange(0, 0) =~= Seq::<char>::empty());
        assert(spec_doubled_quotes(Seq::<char>::empty()) =~= Seq::<char>::empty());
        assert(r@ =~= seq!['"'] + spec_doubled_quotes(field@.subrange(0, 0)));
    }
    while i < n
        invariant
            i <= n,
            n == field@.len(),
            r@ == seq!['"'] + spec_doubled_quotes(field@.subrange(0, i as int)),
        decreases n - i,
    {
        let ghost prefix = field@.subrange(0, i as int);
        let ghost prefix_next = field@.subrange(0, i as int + 1);
        proof {
            assert(prefix_next.drop_last() =~= prefix);
            assert(prefix_next.last() == field@[i as int]);
        }
        let c = field.get_char(i);
        if c == '"' {
            r.push('"');
            r.push('"');
            proof {
                assert(r@ =~= seq!['"'] + (spec_doubled_quotes(prefix) + seq!['"', '"']));
            }
        } else {
            r.push(c);
            proof {
                assert(r@ =~= seq!['"'] + spec_doubled_quotes(prefix).push(field@[i as int]));
            }
        }
        i += 1;
    }
    r.push('"');
    proof {
        assert(field@.subrange(0, n as int) =~= field@);
        assert(r@ =~= seq!['"'] + spec_doubled_quotes(field@) + seq!['"']);
    }
    r
}

} // verus!
