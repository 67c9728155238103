//! The conversion driver: an optional header row, then every input line in
//! order, converted record by record, stopping at the first error.

use vstd::prelude::*;

use crate::csv::{render_row, spec_row};
use crate::record::{convert_line, spec_convert_line, LineError};

verus! {

/// Why and where a run was aborted: the first rejected line, counted from
/// zero over all inputs in order, and the error that rejected it.
#[derive(Debug, PartialEq, Eq)]
pub struct ConvError {
    /// Position of the offending line, counted from zero across all inputs.
    pub line_index: usize,
    /// Why that line was rejected.
    pub error: LineError,
}

/// The text of each line of a sequence.
pub open spec fn line_views(lines: Seq<String>) -> Seq<Seq<char>> {
    lines.map_values(|s: String| s@)
}

/// What converting a sequence of lines yields: the concatenation of each
/// line's CSV row, in order, or the position and error of the first rejected
/// line. The first error aborts the whole conversion.
pub open spec fn spec_convert_lines(lines: Seq<Seq<char>>) -> Result<Seq<char>, (int, LineError)>
    decreases lines.len(),
{
    if lines.len() == 0 {
        Ok(Seq::empty())
    } else {
        match spec_convert_line(lines[0]) {
            Err(e) => Err((0int, e)),
            Ok(row) => match spec_convert_lines(lines.drop_first()) {
                Ok(rest) => Ok(row + rest),
                Err(ie) => Err((ie.0 + 1, ie.1)),
            },
        }
    }
}

/// Converting two inputs one after the other equals converting their lines
/// as one concatenated input: the outputs concatenate, no separator stands
/// between them, and an error keeps its position shifted past the first
/// input's lines.
pub proof fn lemma_convert_lines_concat(xs: Seq<Seq<char>>, ys: Seq<Seq<char>>)
    ensures
        spec_convert_lines(xs) is Err ==> spec_convert_lines(xs + ys) == Err::<
            Seq<char>,
            (int, LineError),
        >(spec_convert_lines(xs)->Err_0),
        spec_convert_lines(xs) is Ok && spec_convert_lines(ys) is Ok ==> spec_convert_lines(
            xs + ys,
        ) == Ok::<Seq<char>, (int, LineError)>(
            spec_convert_lines(xs)->Ok_0 + spec_convert_lines(ys)->Ok_0,
        ),
        spec_convert_lines(xs) is Ok && spec_convert_lines(ys) is Err ==> spec_convert_lines(
            xs + ys,
        ) == Err::<Seq<char>, (int, LineError)>(
            (spec_convert_lines(ys)->Err_0.0 + xs.len(), spec_convert_lines(ys)->Err_0.1),
        ),
    decreases xs.len(),
{
    if xs.len() == 0 {
        assert(xs + ys =~= ys);
        if spec_convert_lines(ys) is Ok {
            assert(Seq::<char>::empty() + spec_convert_lines(ys)->Ok_0 =~= spec_convert_lines(
                ys,
            )->Ok_0);
        }
    } else {
        assert((xs + ys)[0] == xs[0]);
        assert((xs + ys).drop_first() =~= xs.drop_first() + ys);
        lemma_convert_lines_concat(xs.drop_first(), ys);
        if spec_convert_line(xs[0]) is Ok && spec_convert_lines(xs.drop_first()) is Ok
            && spec_convert_lines(ys) is Ok {
            assert(spec_convert_line(xs[0])->Ok_0 + (spec_convert_lines(xs.drop_first())->Ok_0
                + spec_convert_lines(ys)->Ok_0) =~= (spec_convert_line(xs[0])->Ok_0
                + spec_convert_lines(xs.drop_first())->Ok_0) + spec_convert_lines(ys)->Ok_0);
        }
    }
}

/// The conversion fails fast: if every line before position `i` converts and
/// the line at `i` is rejected, the whole conversion stops there, with that
/// line's position and error.
pub proof fn lemma_fail_fast(lines: Seq<Seq<char>>, i: int)
    requires
        0 <= i < lines.len(),
        spec_convert_line(lines[i]) is Err,
        forall|j: int| 0 <= j < i ==> spec_convert_line(#[trigger] lines[j]) is Ok,
    ensures
        spec_convert_lines(lines) == Err::<Seq<char>, (int, LineError)>(
            (i, spec_convert_line(lines[i])->Err_0),
        ),
    decreases i,
{
    if i == 0 {
    } else {
        assert(spec_convert_line(lines[0]) is Ok);
        assert(forall|j: int|
            0 <= j < i - 1 ==> spec_convert_line(#[trigger] lines.drop_first()[j]) is Ok);
        assert(lines.drop_first()[i - 1] == lines[i]);
        lemma_fail_fast(lines.drop_first(), i - 1);
    }
}

/// Convert input lines, in order, into CSV text: one row per line, each the
/// parsed object's values in source-text key order. The first rejected line
/// aborts the conversion and is reported with its position.
pub fn convert_lines(lines: &Vec<String>) -> (r: Result<String, ConvError>)
    ensures
        (r is Ok) == (spec_convert_lines(line_views(lines@)) is Ok),
        r is Ok ==> (r->Ok_0)@ == spec_convert_lines(line_views(lines@))->Ok_0,
        r is Err ==> spec_convert_lines(line_views(lines@)) == Err::<Seq<char>, (int, LineError)>(
            ((r->Err_0).line_index as int, (r->Err_0).error),
        ),
{
    let ghost vs = line_views(lines@);
    let mut out = String::new();
    let mut i: usize = 0;
    while i < lines.len()
        invariant
            i <= lines.len(),
            vs == line_views(lines@),
            vs.len() == lines@.len(),
            spec_convert_lines(vs.take(i as int)) == Ok::<Seq<char>, (int, LineError)>(out@),
        decreases lines.len() - i,
    {
        match convert_line(lines[i].as_str()) {
            Err(e) => {
                proof {
                    assert(vs[i as int] == lines@[i as int]@);
                    lemma_prefix_lines_ok(vs.take(i as int), out@);
                    assert forall|j: int| 0 <= j < i implies spec_convert_line(
                        #[trigger] vs[j],
                    ) is Ok by {
                        assert(vs.take(i as int)[j] == vs[j]);
                    }
                    lemma_fail_fast(vs, i as int);
                }
                return Err(ConvError { line_index: i, error: e });
            },
            Ok(row) => {
                out.append(row.as_str());
                proof {
                    assert(vs.take(i as int + 1) =~= vs.take(i as int) + seq![vs[i as int]]);
                    assert(seq![vs[i as int]].drop_first() =~= Seq::<Seq<char>>::empty());
                    assert(seq![vs[i as int]][0] == vs[i as int]);
                    assert(vs[i as int] == lines@[i as int]@);
                    assert(spec_convert_lines(Seq::<Seq<char>>::empty()) == Ok::<
                        Seq<char>,
                        (int, LineError),
                    >(Seq::<char>::empty()));
                    assert(spec_convert_line(vs[i as int])->Ok_0 + Seq::<char>::empty()
                        =~= spec_convert_line(vs[i as int])->Ok_0);
                    assert(spec_convert_lines(seq![vs[i as int]]) == Ok::<
                        Seq<char>,
                        (int, LineError),
                    >(spec_convert_line(vs[i as int])->Ok_0));
                    lemma_convert_lines_concat(vs.take(i as int), seq![vs[i as int]]);
                }
                i += 1;
            },
        }
    }
    proof {
        assert(vs.take(lines@.len() as int) =~= vs);
    }
    Ok(out)
}

/// In a line sequence whose conversion succeeds wholesale, every single line
/// converts.
proof fn lemma_prefix_lines_ok(lines: Seq<Seq<char>>, out: Seq<char>)
    requires
        spec_convert_lines(lines) == Ok::<Seq<char>, (int, LineError)>(out),
    ensures
        forall|j: int| 0 <= j < lines.len() ==> spec_convert_line(#[trigger] lines[j]) is Ok,
    decreases lines.len(),
{
    if lines.len() > 0 {
        assert(spec_convert_line(lines[0]) is Ok);
        assert(spec_convert_lines(lines.drop_first()) is Ok);
        lemma_prefix_lines_ok(lines.drop_first(), spec_convert_lines(lines.drop_first())->Ok_0);
        assert forall|j: int| 0 <= j < lines.len() implies spec_convert_line(
            #[trigger] lines[j],
        ) is Ok by {
            if j > 0 {
                assert(lines.drop_first()[j - 1] == lines[j]);
            }
        }
    }
}

/// The text of each cell of an optional header row.
pub open spec fn header_views(header: Option<Vec<String>>) -> Option<Seq<Seq<char>>> {
    match header {
        Some(h) => Some(line_views(h@)),
        None => None,
    }
}

/// What a whole run yields: the header row, written verbatim if one was
/// supplied and independent of every record's width, followed by the rows of
/// all lines; or the position and error of the first rejected line.
pub open spec fn spec_run(header: Option<Seq<Seq<char>>>, lines: Seq<Seq<char>>) -> Result<
    Seq<char>,
    (int, LineError),
> {
    match spec_convert_lines(lines) {
        Ok(body) => Ok(
            (match header {
                Some(h) => spec_row(h),
                None => Seq::empty(),
            }) + body,
        ),
        Err(ie) => Err(ie),
    }
}

/// Run the whole conversion: write the header row first if one was supplied
/// (verbatim, never checked against any record's width), then one CSV row
/// per input line; stop at the first rejected line and report it.
pub fn run(header: &Option<Vec<String>>, lines: &Vec<String>) -> (r: Result<String, ConvError>)
    ensures
        (r is Ok) == (spec_run(header_views(*header), line_views(lines@)) is Ok),
        r is Ok ==> (r->Ok_0)@ == spec_run(header_views(*header), line_views(lines@))->Ok_0,
        r is Err ==> spec_run(header_views(*header), line_views(lines@)) == Err::<
            Seq<char>,
            (int, LineError),
        >(((r->Err_0).line_index as int, (r->Err_0).error)),
{
    match convert_lines(lines) {
        Err(e) => Err(e),
        Ok(body) => {
            let mut out = match header {
                Some(h) => render_row(h),
                None => String::new(),
            };
            out.append(body.as_str());
            proof {
                if header is None {
                    assert(Seq::<char>::empty() + body@ =~= body@);
                }
            }
            Ok(out)
        },
    }
}

} // verus!

