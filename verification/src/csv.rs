//! CSV row serialization with the minimal-quoting rule.
//!
//! A cell is quoted exactly when it contains a comma, a quote character, or a
//! line terminator; inside a quoted cell every quote is doubled. Cells are
//! joined by commas and each row ends with CRLF.

use vstd::prelude::*;

verus! {

/// The characters that force a cell to be quoted: the delimiter, the quote
/// character, and the two line-terminator characters.
pub open spec fn is_special(c: char) -> bool {
    c == ',' || c == '"' || c == '\r' || c == '\n'
}

/// A cell needs quoting exactly when some character of it is special.
pub open spec fn needs_quoting(s: Seq<char>) -> bool {
    exists|i: int| 0 <= i < s.len() && is_special(s[i])
}

/// How one character appears inside a quoted cell: quotes are doubled,
/// everything else is kept as it is.
pub open spec fn escaped_char(c: char) -> Seq<char> {
    if c == '"' {
        seq!['"', '"']
    } else {
        seq![c]
    }
}

/// A cell's content with every quote doubled.
pub open spec fn escape_quotes(s: Seq<char>) -> Seq<char>
    decreases s.len(),
{
    if s.len() == 0 {
        Seq::empty()
    } else {
        escaped_char(s[0]) + escape_quotes(s.drop_first())
    }
}

/// The serialized form of one cell: quoted (with doubled quotes) exactly when
/// the content holds a special character, verbatim otherwise.
pub open spec fn spec_cell(s: Seq<char>) -> Seq<char> {
    if needs_quoting(s) {
        seq!['"'] + escape_quotes(s) + seq!['"']
    } else {
        s
    }
}

/// The cells of one row, serialized and joined by commas, without the
/// row terminator.
pub open spec fn spec_joined(cells: Seq<Seq<char>>) -> Seq<char>
    decreases cells.len(),
{
    if cells.len() == 0 {
        Seq::empty()
    } else if cells.len() == 1 {
        spec_cell(cells[0])
    } else {
        spec_cell(cells[0]) + seq![','] + spec_joined(cells.drop_first())
    }
}

/// One full CSV row: the joined cells followed by CRLF.
pub open spec fn spec_row(cells: Seq<Seq<char>>) -> Seq<char> {
    spec_joined(cells) + seq!['\r', '\n']
}

/// Escaping distributes over appending one character at the end.
proof fn lemma_escape_snoc(s: Seq<char>, c: char)
    ensures
        escape_quotes(s.push(c)) == escape_quotes(s) + escaped_char(c),
    decreases s.len(),
{
    if s.len() == 0 {
        assert(s.push(c)[0] == c);
        assert(s.push(c).drop_first() =~= Seq::<char>::empty());
        assert(escape_quotes(Seq::<char>::empty()) == Seq::<char>::empty());
        assert(escape_quotes(s.push(c)) == escaped_char(c) + Seq::<char>::empty());
        assert(escape_quotes(s.push(c)) =~= escape_quotes(s) + escaped_char(c));
    } else {
        assert(s.push(c).drop_first() =~= s.drop_first().push(c));
        lemma_escape_snoc(s.drop_first(), c);
        assert(escape_quotes(s.push(c)) =~= escape_quotes(s) + escaped_char(c));
    }
}

/// Joining distributes over appending one cell at the end.
proof fn lemma_joined_snoc(cells: Seq<Seq<char>>, c: Seq<char>)
    ensures
        spec_joined(cells.push(c)) == (if cells.len() == 0 {
            spec_cell(c)
        } else {
            spec_joined(cells) + seq![','] + spec_cell(c)
        }),
    decreases cells.len(),
{
    if cells.len() == 0 {
        assert(cells.push(c)[0] == c);
    } else if cells.len() == 1 {
        assert(cells.push(c)[0] == cells[0]);
        assert(cells.push(c).drop_first() =~= seq![c]);
        assert(seq![c][0] == c);
        assert(spec_joined(seq![c]) == spec_cell(c));
        assert(spec_joined(cells.push(c)) =~= spec_joined(cells) + seq![','] + spec_cell(c));
    } else {
        assert(cells.push(c).drop_first() =~= cells.drop_first().push(c));
        lemma_joined_snoc(cells.drop_first(), c);
        assert(spec_joined(cells.push(c)) =~= spec_joined(cells) + seq![','] + spec_cell(c));
    }
}

/// A cell with no special character is serialized verbatim.
pub proof fn lemma_plain_cell_verbatim(s: Seq<char>)
    requires
        !needs_quoting(s),
    ensures
        spec_cell(s) == s,
{
}

/// A cell with a special character is serialized quoted, its quotes doubled.
pub proof fn lemma_special_cell_quoted(s: Seq<char>)
    requires
        needs_quoting(s),
    ensures
        spec_cell(s) == seq!['"'] + escape_quotes(s) + seq!['"'],
{
}

/// Decide whether a cell's content needs quoting.
pub fn cell_needs_quoting(s: &str) -> (b: bool)
    ensures
        b == needs_quoting(s@),
{
    let n = s.unicode_len();
    let mut i: usize = 0;
    while i < n
        invariant
            i <= n,
            n == s@.len(),
            forall|j: int| 0 <= j < i ==> !is_special(s@[j]),
        decreases n - i,
    {
        let c = s.get_char(i);
        if c == ',' || c == '"' || c == '\r' || c == '\n' {
            proof {
                assert(is_special(s@[i as int]));
            }
            return true;
        }
        i += 1;
    }
    false
}

/// A copy of the cell's content with every quote doubled.
pub fn escaped_text(s: &str) -> (r: String)
    ensures
        r@ == escape_quotes(s@),
{
    let n = s.unicode_len();
    let mut out = String::new();
    let mut i: usize = 0;
    while i < n
        invariant
            i <= n,
            n == s@.len(),
            out@ == escape_quotes(s@.take(i as int)),
        decreases n - i,
    {
        let c = s.get_char(i);
        if c == '"' {
            out.append("\"\"");
            proof {
                reveal_strlit("\"\"");
                assert("\"\""@ =~= escaped_char(s@[i as int]));
            }
        } else {
            let piece = s.substring_char(i, i + 1);
            out.append(piece);
            proof {
                assert(piece@ =~= escaped_char(s@[i as int]));
            }
        }
        proof {
            assert(s@.take(i as int + 1) =~= s@.take(i as int).push(s@[i as int]));
            lemma_escape_snoc(s@.take(i as int), s@[i as int]);
        }
        i += 1;
    }
    proof {
        assert(s@.take(n as int) =~= s@);
    }
    out
}

/// Serialize one cell: quote and escape it exactly when its content holds a
/// comma, a quote, or a line-terminator character.
pub fn render_cell(s: &str) -> (r: String)
    ensures
        r@ == spec_cell(s@),
{
    if cell_needs_quoting(s) {
        let mut out = String::from_str("\"");
        let esc = escaped_text(s);
        out.append(esc.as_str());
        out.append("\"");
        proof {
            reveal_strlit("\"");
            assert(out@ =~= spec_cell(s@));
        }
        out
    } else {
        s.to_owned()
    }
}

/// Serialize one full CSV row: the cells, each quoted as needed, joined by
/// commas and terminated by CRLF.
pub fn render_row(cells: &Vec<String>) -> (r: String)
    ensures
        r@ == spec_row(cells@.map_values(|c: String| c@)),
{
    let ghost views = cells@.map_values(|c: String| c@);
    let mut out = String::new();
    let mut j: usize = 0;
    while j < cells.len()
        invariant
            j <= cells.len(),
            views == cells@.map_values(|c: String| c@),
            out@ == spec_joined(views.take(j as int)),
        decreases cells.len() - j,
    {
        if j > 0 {
            out.append(",");
            proof {
                reveal_strlit(",");
                assert(","@ =~= seq![',']);
            }
        }
        let cell = render_cell(cells[j].as_str());
        out.append(cell.as_str());
        proof {
            assert(views.take(j as int + 1) =~= views.take(j as int).push(views[j as int]));
            lemma_joined_snoc(views.take(j as int), views[j as int]);
            assert(views[j as int] == cells@[j as int]@);
        }
        j += 1;
    }
    out.append("\r\n");
    proof {
        reveal_strlit("\r\n");
        assert("\r\n"@ =~= seq!['\r', '\n']);
        assert(views.take(cells@.len() as int) =~= views);
    }
    out
}

} // verus!
