//! The laws of the library, each stated over the specification functions
//! that the executable functions' contracts use, and proved once for all
//! inputs.

use vstd::prelude::*;
use crate::config::ParseResult;
use crate::config::dash;
use crate::config::is_number_flag;
use crate::config::is_nonblank_flag;
use crate::config::is_positional;
use crate::config::parse_from;
use crate::config::spec_parse;
use crate::output::spec_format;
use crate::output::spec_numbered;
use crate::output::spec_run;
use crate::text::is_blank;

verus! {

/// With no numbering flag, the output lines are exactly the input lines.
pub proof fn lemma_no_numbering_is_identity(lines: Seq<Seq<char>>)
    ensures
        spec_format(lines, false, false, 1) == lines,
    decreases lines.len(),
{
    if lines.len() == 0 {
        assert(spec_format(lines, false, false, 1) =~= lines);
    } else {
        lemma_no_numbering_is_identity(lines.drop_first());
        assert(spec_format(lines, false, false, 1) =~= lines);
    }
}

proof fn lemma_number_every_line_from(lines: Seq<Seq<char>>, counter: nat)
    ensures
        spec_format(lines, true, false, counter).len() == lines.len(),
        forall|k: int|
            0 <= k < lines.len() ==> #[trigger] spec_format(lines, true, false, counter)[k]
                == spec_numbered((counter + k) as nat, lines[k]),
    decreases lines.len(),
{
    if lines.len() > 0 {
        lemma_number_every_line_from(lines.drop_first(), counter + 1);
        let fmt = spec_format(lines, true, false, counter);
        let rest_fmt = spec_format(lines.drop_first(), true, false, counter + 1);
        assert forall|k: int| 0 <= k < lines.len() implies #[trigger] fmt[k] == spec_numbered(
            (counter + k) as nat,
            lines[k],
        ) by {
            if k > 0 {
                assert(fmt[k] == rest_fmt[k - 1]);
                assert(rest_fmt[k - 1] == spec_numbered(
                    (counter + 1 + (k - 1)) as nat,
                    lines.drop_first()[k - 1],
                ));
                assert(lines.drop_first()[k - 1] == lines[k]);
            }
        }
    }
}

/// With every line numbered, there are as many output lines as input lines,
/// and the k-th output line (k counted from zero) is the k+1-st numeral
/// prefixed to the k-th input line, blank or not.
pub proof fn lemma_number_every_line(lines: Seq<Seq<char>>)
    ensures
        spec_format(lines, true, false, 1).len() == lines.len(),
        forall|k: int|
            0 <= k < lines.len() ==> #[trigger] spec_format(lines, true, false, 1)[k]
                == spec_numbered((k + 1) as nat, lines[k]),
    decreases lines.len(),
{
    lemma_number_every_line_from(lines, 1);
}

/// How many of the lines are not blank.
pub open spec fn count_nonblank(lines: Seq<Seq<char>>) -> nat
    decreases lines.len(),
{
    if lines.len() == 0 {
        0
    } else {
        (if is_blank(lines.first()) {
            0 as nat
        } else {
            1 as nat
        }) + count_nonblank(lines.drop_first())
    }
}

proof fn lemma_count_nonblank_step(lines: Seq<Seq<char>>, k: int)
    requires
        0 <= k < lines.len(),
    ensures
        count_nonblank(lines.take(k + 1)) == count_nonblank(lines.take(k)) + (if is_blank(
            lines[k],
        ) {
            0 as int
        } else {
            1 as int
        }),
    decreases lines.len(),
{
    if k == 0 {
        assert(lines.take(0) =~= Seq::<Seq<char>>::empty());
        assert(lines.take(1).drop_first() =~= Seq::<Seq<char>>::empty());
        assert(lines.take(1).first() == lines[0]);
    } else {
        lemma_count_nonblank_step(lines.drop_first(), k - 1);
        assert(lines.take(k + 1).first() == lines.first());
        assert(lines.take(k).first() == lines.first());
        assert(lines.take(k + 1).drop_first() =~= lines.drop_first().take(k));
        assert(lines.take(k).drop_first() =~= lines.drop_first().take(k - 1));
        assert(lines.drop_first()[k - 1] == lines[k]);
    }
}

proof fn lemma_number_nonblank_from(lines: Seq<Seq<char>>, counter: nat)
    ensures
        spec_format(lines, false, true, counter).len() == lines.len(),
        forall|k: int|
            0 <= k < lines.len() && is_blank(lines[k]) ==> #[trigger] spec_format(
                lines,
                false,
                true,
                counter,
            )[k] == Seq::<char>::empty(),
        forall|k: int|
            0 <= k < lines.len() && !is_blank(lines[k]) ==> #[trigger] spec_format(
                lines,
                false,
                true,
                counter,
            )[k] == spec_numbered((counter + count_nonblank(lines.take(k))) as nat, lines[k]),
    decreases lines.len(),
{
    if lines.len() > 0 {
        let l = lines.first();
        let rest = lines.drop_first();
        let step: nat = if is_blank(l) {
            0 as nat
        } else {
            1 as nat
        };
        lemma_number_nonblank_from(rest, counter + step);
        let fmt = spec_format(lines, false, true, counter);
        let rest_fmt = spec_format(rest, false, true, counter + step);
        assert(lines.take(0) =~= Seq::<Seq<char>>::empty());
        assert forall|k: int| 0 <= k < lines.len() && is_blank(lines[k]) implies #[trigger] fmt[k]
            == Seq::<char>::empty() by {
            if k > 0 {
                assert(rest[k - 1] == lines[k]);
                assert(fmt[k] == rest_fmt[k - 1]);
            }
        }
        assert forall|k: int| 0 <= k < lines.len() && !is_blank(lines[k]) implies #[trigger] fmt[k]
            == spec_numbered((counter + count_nonblank(lines.take(k))) as nat, lines[k]) by {
            if k == 0 {
                assert(fmt[0] == spec_numbered(counter, l));
            } else {
                assert(rest[k - 1] == lines[k]);
                assert(fmt[k] == rest_fmt[k - 1]);
                assert(rest_fmt[k - 1] == spec_numbered(
                    ((counter + step) + count_nonblank(rest.take(k - 1))) as nat,
                    rest[k - 1],
                ));
                assert(lines.take(k).first() == l);
                assert(lines.take(k).drop_first() =~= rest.take(k - 1));
                assert(count_nonblank(lines.take(k)) == step + count_nonblank(rest.take(k - 1)));
            }
        }
    }
}

/// With only non-blank lines numbered, there are as many output lines as
/// input lines; a blank input line becomes an empty output line with no
/// number, and a non-blank input line is prefixed with the count of
/// non-blank lines seen so far, counted from one.
pub proof fn lemma_number_nonblank_lines(lines: Seq<Seq<char>>)
    ensures
        spec_format(lines, false, true, 1).len() == lines.len(),
        forall|k: int|
            0 <= k < lines.len() && is_blank(lines[k]) ==> #[trigger] spec_format(
                lines,
                false,
                true,
                1,
            )[k] == Seq::<char>::empty(),
        forall|k: int|
            0 <= k < lines.len() && !is_blank(lines[k]) ==> #[trigger] spec_format(
                lines,
                false,
                true,
                1,
            )[k] == spec_numbered(count_nonblank(lines.take(k + 1)), lines[k]),
{
    lemma_number_nonblank_from(lines, 1);
    assert forall|k: int| 0 <= k < lines.len() && !is_blank(lines[k]) implies #[trigger]
        spec_format(lines, false, true, 1)[k] == spec_numbered(
        count_nonblank(lines.take(k + 1)),
        lines[k],
    ) by {
        lemma_count_nonblank_step(lines, k);
        assert((1 + count_nonblank(lines.take(k))) as nat == count_nonblank(lines.take(k + 1)));
    }
}

/// The two numbering flags never both survive resolution: no `ParseResult`
/// reachable from a state without both flags carries both.
proof fn lemma_parse_from_exclusive(
    args: Seq<Seq<char>>,
    files: Seq<Seq<char>>,
    number_lines: bool,
    number_nonblank_lines: bool,
)
    requires
        !(number_lines && number_nonblank_lines),
    ensures
        parse_from(args, files, number_lines, number_nonblank_lines) matches ParseResult::Parsed {
            number_lines: nl,
            number_nonblank_lines: nb,
            ..
        } ==> !(nl && nb),
    decreases args.len(),
{
    if args.len() > 0 {
        let t = args.first();
        if is_number_flag(t) && !number_nonblank_lines {
            lemma_parse_from_exclusive(args.drop_first(), files, true, number_nonblank_lines);
        } else if is_nonblank_flag(t) && !number_lines {
            lemma_parse_from_exclusive(args.drop_first(), files, number_lines, true);
        } else if is_positional(t) {
            lemma_parse_from_exclusive(
                args.drop_first(),
                files.push(t),
                number_lines,
                number_nonblank_lines,
            );
        }
    }
}

/// A resolved configuration never asks for both numbering modes at once.
pub proof fn lemma_config_flags_exclusive(args: Seq<Seq<char>>)
    ensures
        spec_parse(args) matches ParseResult::Parsed {
            number_lines: nl,
            number_nonblank_lines: nb,
            ..
        } ==> !(nl && nb),
{
    lemma_parse_from_exclusive(args, Seq::empty(), false, false);
}

/// No token is both a number-every-line flag and a number-nonblank flag.
pub proof fn lemma_flags_disjoint(t: Seq<char>)
    ensures
        !(is_number_flag(t) && is_nonblank_flag(t)),
{
    if is_number_flag(t) && is_nonblank_flag(t) {
        assert(seq!['-', 'n'].len() == 2);
        assert(seq!['-', 'b'].len() == 2);
        assert(seq!['-', '-', 'n', 'u', 'm', 'b', 'e', 'r'].len() == 8);
        assert(seq!['-', '-', 'n', 'u', 'm', 'b', 'e', 'r', '-', 'n', 'o', 'n', 'b', 'l', 'a', 'n', 'k'].len() == 17);
        assert(seq!['-', 'n'][1] == 'n');
        assert(seq!['-', 'b'][1] == 'b');
        assert(false);
    }
}

/// The sequence holds a number-every-line flag.
pub open spec fn has_number_flag(args: Seq<Seq<char>>) -> bool {
    exists|i: int| 0 <= i < args.len() && is_number_flag(#[trigger] args[i])
}

/// The sequence holds a number-nonblank flag.
pub open spec fn has_nonblank_flag(args: Seq<Seq<char>>) -> bool {
    exists|i: int| 0 <= i < args.len() && is_nonblank_flag(#[trigger] args[i])
}

proof fn lemma_parse_from_both_flags(
    args: Seq<Seq<char>>,
    files: Seq<Seq<char>>,
    number_lines: bool,
    number_nonblank_lines: bool,
)
    requires
        !(number_lines && number_nonblank_lines),
        number_lines || has_number_flag(args),
        number_nonblank_lines || has_nonblank_flag(args),
    ensures
        !(parse_from(args, files, number_lines, number_nonblank_lines) is Parsed),
    decreases args.len(),
{
    assert(args.len() > 0) by {
        if !number_lines {
            let i = choose|i: int| 0 <= i < args.len() && is_number_flag(#[trigger] args[i]);
        } else {
            let j = choose|j: int| 0 <= j < args.len() && is_nonblank_flag(#[trigger] args[j]);
        }
    }
    let t = args.first();
    let rest = args.drop_first();
    if is_number_flag(t) {
        if !number_nonblank_lines {
            assert(has_nonblank_flag(rest)) by {
                let j = choose|j: int| 0 <= j < args.len() && is_nonblank_flag(#[trigger] args[j]);
                lemma_flags_disjoint(t);
                assert(j != 0);
                assert(rest[j - 1] == args[j]);
            }
            lemma_parse_from_both_flags(rest, files, true, number_nonblank_lines);
        }
    } else if is_nonblank_flag(t) {
        if !number_lines {
            assert(has_number_flag(rest)) by {
                let i = choose|i: int| 0 <= i < args.len() && is_number_flag(#[trigger] args[i]);
                lemma_flags_disjoint(t);
                assert(i != 0);
                assert(rest[i - 1] == args[i]);
            }
            lemma_parse_from_both_flags(rest, files, number_lines, true);
        }
    } else if is_positional(t) {
        assert(number_lines || has_number_flag(rest)) by {
            if !number_lines {
                let i = choose|i: int| 0 <= i < args.len() && is_number_flag(#[trigger] args[i]);
                assert(i != 0);
                assert(rest[i - 1] == args[i]);
            }
        }
        assert(number_nonblank_lines || has_nonblank_flag(rest)) by {
            if !number_nonblank_lines {
                let j = choose|j: int| 0 <= j < args.len() && is_nonblank_flag(#[trigger] args[j]);
                assert(j != 0);
                assert(rest[j - 1] == args[j]);
            }
        }
        lemma_parse_from_both_flags(rest, files.push(t), number_lines, number_nonblank_lines);
    }
}

/// Supplying both numbering flags, in any order and among any other tokens,
/// fails configuration resolution: the result is never a configuration.
pub proof fn lemma_both_flags_rejected(args: Seq<Seq<char>>)
    requires
        has_number_flag(args),
        has_nonblank_flag(args),
    ensures
        !(spec_parse(args) is Parsed),
{
    lemma_parse_from_both_flags(args, Seq::empty(), false, false);
}

proof fn lemma_parse_from_no_positional(
    args: Seq<Seq<char>>,
    files: Seq<Seq<char>>,
    number_lines: bool,
    number_nonblank_lines: bool,
)
    requires
        forall|i: int| 0 <= i < args.len() ==> !is_positional(#[trigger] args[i]),
    ensures
        parse_from(args, files, number_lines, number_nonblank_lines)
            matches ParseResult::Parsed { files: fs, .. } ==> fs == (if files.len() == 0 {
            seq![dash()]
        } else {
            files
        }),
    decreases args.len(),
{
    if args.len() > 0 {
        let t = args.first();
        let rest = args.drop_first();
        assert(forall|i: int| 0 <= i < rest.len() ==> !is_positional(#[trigger] rest[i])) by {
            assert(forall|i: int| 0 <= i < rest.len() ==> rest[i] == args[i + 1]);
        }
        if is_number_flag(t) && !number_nonblank_lines {
            lemma_parse_from_no_positional(rest, files, true, number_nonblank_lines);
        } else if is_nonblank_flag(t) && !number_lines {
            lemma_parse_from_no_positional(rest, files, number_lines, true);
        }
    }
}

/// With no positional file argument among the tokens, a resolved
/// configuration reads standard input: its one input is the sentinel `-`.
pub proof fn lemma_no_files_defaults_to_stdin(args: Seq<Seq<char>>)
    requires
        forall|i: int| 0 <= i < args.len() ==> !is_positional(#[trigger] args[i]),
    ensures
        spec_parse(args) matches ParseResult::Parsed { files: fs, .. } ==> fs == seq![dash()],
{
    lemma_parse_from_no_positional(args, Seq::empty(), false, false);
}

/// An input that could not be opened contributes nothing to the run's
/// output: the output is the one the remaining inputs, in their order,
/// produce by themselves.
pub proof fn lemma_failed_open_skipped(
    sources: Seq<Option<Seq<Seq<char>>>>,
    i: int,
    number_lines: bool,
    number_nonblank_lines: bool,
)
    requires
        0 <= i < sources.len(),
        sources[i] is None,
    ensures
        spec_run(sources, number_lines, number_nonblank_lines) == spec_run(
            sources.remove(i),
            number_lines,
            number_nonblank_lines,
        ),
    decreases sources.len(),
{
    if i == 0 {
        assert(sources.remove(0) =~= sources.drop_first());
        assert(Seq::<Seq<char>>::empty() + spec_run(
            sources.drop_first(),
            number_lines,
            number_nonblank_lines,
        ) =~= spec_run(sources.drop_first(), number_lines, number_nonblank_lines));
    } else {
        lemma_failed_open_skipped(sources.drop_first(), i - 1, number_lines, number_nonblank_lines);
        assert(sources.remove(i).first() == sources.first());
        assert(sources.remove(i).drop_first() =~= sources.drop_first().remove(i - 1));
    }
}

} // verus!
