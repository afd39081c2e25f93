//! The line processor: it turns the lines read from one input, and from a
//! whole run of inputs, into the lines to write, applying the configured
//! numbering mode.

use vstd::prelude::*;
use vstd::string::StringExecFns;
use crate::config::Config;
use crate::text::is_blank;
use crate::text::line_is_blank;
use crate::text::spec_decimal;
use crate::text::decimal;

verus! {

/// A run of `n` spaces.
pub open spec fn spaces(n: nat) -> Seq<char> {
    Seq::new(n, |i: int| ' ')
}

/// How many spaces pad the numeral of `k` to the fixed field width of six;
/// a numeral of seven or more digits gets no padding.
pub open spec fn pad_width(k: nat) -> nat {
    if spec_decimal(k).len() < 6 {
        (6 - spec_decimal(k).len()) as nat
    } else {
        0
    }
}

/// A numbered output line: the decimal numeral of `k` right-aligned in a
/// field six characters wide, a tab, then the line unchanged.
pub open spec fn spec_numbered(k: nat, line: Seq<char>) -> Seq<char> {
    spaces(pad_width(k)) + spec_decimal(k) + seq!['\t'] + line
}

/// The output lines for one input whose lines were read successfully, with
/// the line counter at `counter`: every line numbered, only non-blank lines
/// numbered (a blank line becomes an empty line and leaves the counter
/// alone), or every line unchanged.
pub open spec fn spec_format(
    lines: Seq<Seq<char>>,
    number_lines: bool,
    number_nonblank_lines: bool,
    counter: nat,
) -> Seq<Seq<char>>
    decreases lines.len(),
{
    if lines.len() == 0 {
        Seq::empty()
    } else {
        let l = lines.first();
        let rest = lines.drop_first();
        if number_lines {
            seq![spec_numbered(counter, l)] + spec_format(
                rest,
                number_lines,
                number_nonblank_lines,
                counter + 1,
            )
        } else if number_nonblank_lines {
            if is_blank(l) {
                seq![Seq::<char>::empty()] + spec_format(
                    rest,
                    number_lines,
                    number_nonblank_lines,
                    counter,
                )
            } else {
                seq![spec_numbered(counter, l)] + spec_format(
                    rest,
                    number_lines,
                    number_nonblank_lines,
                    counter + 1,
                )
            }
        } else {
            seq![l] + spec_format(rest, number_lines, number_nonblank_lines, counter)
        }
    }
}

/// Renders one numbered output line.
pub fn render_numbered(k: u64, line: &String) -> (out: String)
    ensures
        out@ == spec_numbered(k as nat, line@),
{
    let d = decimal(k);
    let digits: usize = d.as_str().unicode_len();
    let pad: usize = if digits < 6 {
        6 - digits
    } else {
        0
    };
    let mut s = String::new();
    let mut i: usize = 0;
    proof {
        assert(s@ =~= spaces(0));
    }
    while i < pad
        invariant
            i <= pad,
            s@ == spaces(i as nat),
        decreases pad - i,
    {
        s.append(" ");
        i = i + 1;
        proof {
            reveal_strlit(" ");
            assert(" "@ =~= seq![' ']);
            assert(s@ =~= spaces(i as nat));
        }
    }
    s.append(d.as_str());
    s.append("\t");
    s.append(line.as_str());
    proof {
        reveal_strlit("\t");
        assert("\t"@ =~= seq!['\t']);
        assert(pad == pad_width(k as nat));
        assert(s@ =~= spec_numbered(k as nat, line@));
    }
    s
}

/// The counter after one line: it advances when the line was numbered —
/// always when every line is numbered, on non-blank lines when only those
/// are, and never without a numbering flag.
pub open spec fn counter_after(
    line: Seq<char>,
    number_lines: bool,
    number_nonblank_lines: bool,
    counter: nat,
) -> nat {
    if number_lines || (number_nonblank_lines && !is_blank(line)) {
        counter + 1
    } else {
        counter
    }
}

/// Produces the output line for one input line together with the next
/// counter value, so that a caller can stream an input line by line and
/// emit each output line at once: the output line is what `spec_format`
/// yields for this line alone at `counter`, and handing the returned
/// counter to the next line continues the same numbering.
pub fn line_output(config: &Config, line: &String, counter: u64) -> (r: (String, u64))
    requires
        config.wf(),
        counter < u64::MAX,
    ensures
        seq![r.0@] == spec_format(
            seq![line@],
            config.number_lines,
            config.number_nonblank_lines,
            counter as nat,
        ),
        r.1 as nat == counter_after(
            line@,
            config.number_lines,
            config.number_nonblank_lines,
            counter as nat,
        ),
{
    let ghost single = seq![line@];
    proof {
        reveal_with_fuel(spec_format, 2);
        assert(single.drop_first() =~= Seq::<Seq<char>>::empty());
        assert(single.first() == line@);
    }
    if config.number_lines {
        let out_line = render_numbered(counter, line);
        proof {
            assert(seq![out_line@] =~= spec_format(
                single,
                config.number_lines,
                config.number_nonblank_lines,
                counter as nat,
            ));
        }
        (out_line, counter + 1)
    } else if config.number_nonblank_lines {
        if !line_is_blank(line) {
            let out_line = render_numbered(counter, line);
            proof {
                assert(seq![out_line@] =~= spec_format(
                    single,
                    config.number_lines,
                    config.number_nonblank_lines,
                    counter as nat,
                ));
            }
            (out_line, counter + 1)
        } else {
            let out_line = String::new();
            proof {
                assert(seq![out_line@] =~= spec_format(
                    single,
                    config.number_lines,
                    config.number_nonblank_lines,
                    counter as nat,
                ));
            }
            (out_line, counter)
        }
    } else {
        let out_line = line.clone();
        proof {
            assert(seq![out_line@] =~= spec_format(
                single,
                config.number_lines,
                config.number_nonblank_lines,
                counter as nat,
            ));
        }
        (out_line, counter)
    }
}

/// Produces the output lines for the lines of one input, numbering them as
/// the configuration asks; the counter starts at one for each input.
pub fn file_output(config: &Config, lines: &Vec<String>) -> (out: Vec<String>)
    requires
        config.wf(),
        lines@.len() < u64::MAX,
    ensures
        out.deep_view() == spec_format(
            lines.deep_view(),
            config.number_lines,
            config.number_nonblank_lines,
            1,
        ),
{
    let ghost ldv = lines.deep_view();
    let mut out: Vec<String> = Vec::new();
    let mut counter: u64 = 1;
    let mut i: usize = 0;
    proof {
        assert(ldv.skip(0) =~= ldv);
        assert(out.deep_view() =~= Seq::<Seq<char>>::empty());
    }
    while i < lines.len()
        invariant
            config.wf(),
            ldv == lines.deep_view(),
            lines@.len() < u64::MAX,
            i <= lines@.len(),
            1 <= counter <= i + 1,
            out.deep_view() + spec_format(
                ldv.skip(i as int),
                config.number_lines,
                config.number_nonblank_lines,
                counter as nat,
            ) == spec_format(ldv, config.number_lines, config.number_nonblank_lines, 1),
        decreases lines@.len() - i,
    {
        let line = &lines[i];
        proof {
            assert(ldv.skip(i as int).first() == line@);
            assert(ldv.skip(i as int).drop_first() =~= ldv.skip(i as int + 1));
        }
        let ghost before = out.deep_view();
        let (rendered, next_counter) = line_output(config, line, counter);
        let ghost rv = rendered@;
        proof {
            assert(rv == spec_format(
                seq![line@],
                config.number_lines,
                config.number_nonblank_lines,
                counter as nat,
            )[0]);
        }
        out.push(rendered);
        counter = next_counter;
        i = i + 1;
        proof {
            assert(out.deep_view() =~= before.push(rv));
            assert(out.deep_view() + spec_format(
                ldv.skip(i as int),
                config.number_lines,
                config.number_nonblank_lines,
                counter as nat,
            ) =~= spec_format(ldv, config.number_lines, config.number_nonblank_lines, 1));
        }
    }
    proof {
        assert(ldv.skip(i as int) =~= Seq::<Seq<char>>::empty());
        assert(out.deep_view() + Seq::<Seq<char>>::empty() =~= out.deep_view());
    }
    out
}

/// The output lines of a whole run: the inputs' outputs in the given order,
/// each numbered from one. An input whose lines are absent (its open
/// failed) contributes nothing, and the run goes on with the rest.
pub open spec fn spec_run(
    sources: Seq<Option<Seq<Seq<char>>>>,
    number_lines: bool,
    number_nonblank_lines: bool,
) -> Seq<Seq<char>>
    decreases sources.len(),
{
    if sources.len() == 0 {
        Seq::empty()
    } else {
        (match sources.first() {
            Some(lines) => spec_format(lines, number_lines, number_nonblank_lines, 1),
            None => Seq::empty(),
        }) + spec_run(sources.drop_first(), number_lines, number_nonblank_lines)
    }
}

/// Produces the output lines of a whole run. Each entry of `sources` holds
/// the lines read from one input, in the order the configuration names
/// them, or nothing where the input could not be opened: such an input is
/// skipped and the rest are still processed.
pub fn run_outputs(config: &Config, sources: &Vec<Option<Vec<String>>>) -> (out: Vec<String>)
    requires
        config.wf(),
        forall|i: int|
            0 <= i < sources@.len() ==> ((#[trigger] sources@[i]) matches Some(lines)
                ==> lines@.len() < u64::MAX),
    ensures
        out.deep_view() == spec_run(
            sources.deep_view(),
            config.number_lines,
            config.number_nonblank_lines,
        ),
{
    let ghost sdv = sources.deep_view();
    let mut out: Vec<String> = Vec::new();
    let mut i: usize = 0;
    proof {
        assert(sdv.skip(0) =~= sdv);
        assert(out.deep_view() =~= Seq::<Seq<char>>::empty());
    }
    while i < sources.len()
        invariant
            config.wf(),
            sdv == sources.deep_view(),
            i <= sources@.len(),
            forall|j: int|
                0 <= j < sources@.len() ==> ((#[trigger] sources@[j]) matches Some(lines)
                    ==> lines@.len() < u64::MAX),
            out.deep_view() + spec_run(
                sdv.skip(i as int),
                config.number_lines,
                config.number_nonblank_lines,
            ) == spec_run(sdv, config.number_lines, config.number_nonblank_lines),
        decreases sources@.len() - i,
    {
        proof {
            assert(sdv.skip(i as int).first() == sdv[i as int]);
            assert(sdv.skip(i as int).drop_first() =~= sdv.skip(i as int + 1));
        }
        let ghost before = out.deep_view();
        match &sources[i] {
            Some(lines) => {
                proof {
                    assert(sdv[i as int] == Some(lines.deep_view()));
                }
                let mut part = file_output(config, lines);
                let ghost pdv = part.deep_view();
                out.append(&mut part);
                proof {
                    assert(out.deep_view() =~= before + pdv);
                }
            },
            None => {
                proof {
                    assert(sdv[i as int] is None);
                    assert(before + Seq::<Seq<char>>::empty() =~= before);
                }
            },
        }
        i = i + 1;
        proof {
            assert(out.deep_view() + spec_run(
                sdv.skip(i as int),
                config.number_lines,
                config.number_nonblank_lines,
            ) =~= spec_run(sdv, config.number_lines, config.number_nonblank_lines));
        }
    }
    proof {
        assert(sdv.skip(i as int) =~= Seq::<Option<Seq<Seq<char>>>>::empty());
        assert(out.deep_view() + Seq::<Seq<char>>::empty() =~= out.deep_view());
    }
    out
}

} // verus!
