//! The decisions of the build-tool stand-in that copies a wasm file where a
//! missing optimiser or stripper would have written it.
//!
//! The tool is called under the name of the tool it replaces. Called as a
//! copy tool with a source and a destination, it copies; called as a
//! stripper, it does nothing; otherwise it copies the last existing
//! non-flag argument to the file named after `-o`.
use vstd::prelude::*;

verus! {

/// What the tool does.
#[derive(Debug, Clone, Copy, PartialEq, Eq, Structural)]
pub enum FallbackAction {
    /// Copy the file named by the argument at index `from` to the path
    /// named by the argument at index `to`.
    Copy { from: usize, to: usize },
    /// Do nothing.
    Nothing,
}

/// Whether `needle` occurs in `hay` as a contiguous run.
pub open spec fn contains_seq(hay: Seq<char>, needle: Seq<char>) -> bool {
    exists|i: int|
        0 <= i && i + needle.len() <= hay.len() && #[trigger] hay.subrange(i, i + needle.len())
            == needle
}

/// The name the tool was called under: its first argument, or nothing.
pub open spec fn program_name(args: Seq<Seq<char>>) -> Seq<char> {
    if args.len() > 0 {
        args[0]
    } else {
        Seq::empty()
    }
}

/// Whether an argument is a flag, that is, starts with `-`.
pub open spec fn is_flag(a: Seq<char>) -> bool {
    a.len() > 0 && a[0] == '-'
}

/// The input and output that scanning the arguments from index `i` on
/// settles, starting from `input` and `output`: `-o` followed by an
/// argument names the output and both are skipped; any other argument that
/// is no flag and names an existing path becomes the input.
pub open spec fn scan(
    args: Seq<Seq<char>>,
    present: Seq<bool>,
    i: int,
    input: Option<usize>,
    output: Option<usize>,
) -> (Option<usize>, Option<usize>)
    decreases args.len() - i,
{
    if i < 1 || i >= args.len() {
        (input, output)
    } else if args[i] == seq!['-', 'o'] && i + 1 < args.len() {
        scan(args, present, i + 2, input, Some((i + 1) as usize))
    } else if !is_flag(args[i]) && present[i] {
        scan(args, present, i + 1, Some(i as usize), output)
    } else {
        scan(args, present, i + 1, input, output)
    }
}

/// What the tool does with these arguments, where `present[i]` tells
/// whether argument `i` names an existing path.
pub open spec fn fallback_plan(args: Seq<Seq<char>>, present: Seq<bool>) -> FallbackAction {
    let program = program_name(args);
    if contains_seq(program, seq!['c', 'p']) && args.len() >= 3 {
        FallbackAction::Copy { from: 1, to: 2 }
    } else if contains_seq(
        program,
        seq!['w', 'a', 's', 'm', '-', 's', 't', 'r', 'i', 'p'],
    ) {
        FallbackAction::Nothing
    } else {
        match scan(args, present, 1, None, None) {
            (Some(from), Some(to)) => FallbackAction::Copy { from, to },
            _ => FallbackAction::Nothing,
        }
    }
}

/// Whether `needle` occurs in `hay` as a contiguous run.
pub fn contains_chars(hay: &Vec<char>, needle: &Vec<char>) -> (r: bool)
    ensures
        r == contains_seq(hay@, needle@),
{
    let n = needle.len();
    if n > hay.len() {
        return false;
    }
    if n == 0 {
        assert(hay@.subrange(0int, 0int + needle@.len()) =~= needle@);
        return true;
    }
    let last = hay.len() - n;
    let mut i: usize = 0;
    while i <= last
        invariant
            n == needle.len(),
            0 < n <= hay.len(),
            last == hay.len() - n,
            forall|j: int| 0 <= j < i ==> #[trigger] hay@.subrange(j, j + n) != needle@,
        decreases last + 1 - i,
    {
        let mut k: usize = 0;
        let mut same = true;
        while k < n
            invariant
                n == needle.len(),
                i <= last,
                last == hay.len() - n,
                k <= n,
                same == (forall|t: int| 0 <= t < k ==> hay@[i + t] == needle@[t]),
            decreases n - k,
        {
            if hay[i + k] != needle[k] {
                same = false;
            }
            k = k + 1;
        }
        if same {
            assert(hay@.subrange(i as int, i + n) =~= needle@);
            return true;
        }
        proof {
            let t = choose|t: int| 0 <= t < n && hay@[i + t] != needle@[t];
            assert(hay@.subrange(i as int, i + n)[t] != needle@[t]);
        }
        i = i + 1;
    }
    proof {
        assert forall|j: int| 0 <= j && j + needle@.len() <= hay@.len() implies #[trigger] hay@.subrange(
            j,
            j + needle@.len(),
        ) != needle@ by {
            assert(j <= last);
        }
    }
    false
}

/// Whether an argument is exactly `-o`.
fn is_output_flag(a: &Vec<char>) -> (r: bool)
    ensures
        r == (a@ == seq!['-', 'o']),
{
    let r = a.len() == 2 && a[0] == '-' && a[1] == 'o';
    proof {
        if r {
            assert(a@ =~= seq!['-', 'o']);
        }
    }
    r
}

/// Decides what the tool does with its arguments, where `present[i]` tells
/// whether argument `i` names an existing path.
pub fn plan_fallback(args: &Vec<Vec<char>>, present: &Vec<bool>) -> (r: FallbackAction)
    requires
        present.len() == args.len(),
    ensures
        r == fallback_plan(args@.map_values(|a: Vec<char>| a@), present@),
{
    let ghost view = args@.map_values(|a: Vec<char>| a@);
    let copy_tool = vec!['c', 'p'];
    let strip_tool = vec!['w', 'a', 's', 'm', '-', 's', 't', 'r', 'i', 'p'];
    assert(copy_tool@ =~= seq!['c', 'p']);
    assert(strip_tool@ =~= seq!['w', 'a', 's', 'm', '-', 's', 't', 'r', 'i', 'p']);
    let empty: Vec<char> = Vec::new();
    let program = if args.len() > 0 {
        &args[0]
    } else {
        &empty
    };
    assert(program@ =~= program_name(view));
    if contains_chars(program, &copy_tool) && args.len() >= 3 {
        return FallbackAction::Copy { from: 1, to: 2 };
    }
    if contains_chars(program, &strip_tool) {
        return FallbackAction::Nothing;
    }
    let mut input: Option<usize> = None;
    let mut output: Option<usize> = None;
    let mut index: usize = 1;
    while index < args.len()
        invariant
            present.len() == args.len(),
            view == args@.map_values(|a: Vec<char>| a@),
            1 <= index,
            scan(view, present@, index as int, input, output) == scan(
                view,
                present@,
                1,
                None,
                None,
            ),
        decreases args.len() - index,
    {
        if is_output_flag(&args[index]) && index + 1 < args.len() {
            output = Some(index + 1);
            index = index + 2;
            continue;
        }
        let starts_with_dash = args[index].len() > 0 && args[index][0] == '-';
        if !starts_with_dash && present[index] {
            input = Some(index);
        }
        index = index + 1;
    }
    match (input, output) {
        (Some(from), Some(to)) => FallbackAction::Copy { from, to },
        _ => FallbackAction::Nothing,
    }
}


/// Whether argument `j` can be the input when argument `i` is the only
/// `-o`: it is no flag, names an existing path, and is not the output.
pub open spec fn input_candidate(args: Seq<Seq<char>>, present: Seq<bool>, i: int, j: int) -> bool {
    1 <= j < args.len() && j != i + 1 && !(args[j].len() > 0 && args[j][0] == '-') && present[j]
}

/// Scanning past the only `-o` at `i` and its value takes the last input
/// candidate at or after `k`, and keeps the output.
proof fn lemma_scan_after_output(
    args: Seq<Seq<char>>,
    present: Seq<bool>,
    i: int,
    j: int,
    k: int,
    input: Option<usize>,
    output: Option<usize>,
)
    requires
        present.len() == args.len(),
        1 <= i,
        i + 1 < args.len(),
        forall|t: int| 1 <= t < args.len() && t != i ==> args[t] != seq!['-', 'o'],
        input_candidate(args, present, i, j),
        forall|t: int| #[trigger] input_candidate(args, present, i, t) ==> t <= j,
        i + 2 <= k <= args.len(),
    ensures
        scan(args, present, k, input, output) == (
            if k <= j {
                Some(j as usize)
            } else {
                input
            },
            output,
        ),
    decreases args.len() - k,
{
    if k < args.len() {
        assert(args[k] != seq!['-', 'o']);
        if !is_flag(args[k]) && present[k] {
            assert(input_candidate(args, present, i, k));
            lemma_scan_after_output(args, present, i, j, k + 1, Some(k as usize), output);
        } else {
            lemma_scan_after_output(args, present, i, j, k + 1, input, output);
        }
    }
}

/// Scanning from `k` up to the only `-o` at `i` takes the last input
/// candidate at or after `k`, and the argument after the `-o` as output.
proof fn lemma_scan_before_output(
    args: Seq<Seq<char>>,
    present: Seq<bool>,
    i: int,
    j: int,
    k: int,
    input: Option<usize>,
    output: Option<usize>,
)
    requires
        present.len() == args.len(),
        1 <= i,
        i + 1 < args.len(),
        args[i] == seq!['-', 'o'],
        forall|t: int| 1 <= t < args.len() && t != i ==> args[t] != seq!['-', 'o'],
        input_candidate(args, present, i, j),
        forall|t: int| #[trigger] input_candidate(args, present, i, t) ==> t <= j,
        1 <= k <= i,
    ensures
        scan(args, present, k, input, output) == (
            if k <= j {
                Some(j as usize)
            } else {
                input
            },
            Some((i + 1) as usize),
        ),
    decreases args.len() - k,
{
    if k == i {
        assert(is_flag(args[i]));
        lemma_scan_after_output(args, present, i, j, i + 2, input, Some((i + 1) as usize));
    } else {
        assert(args[k] != seq!['-', 'o']);
        if !is_flag(args[k]) && present[k] {
            assert(input_candidate(args, present, i, k));
            lemma_scan_before_output(args, present, i, j, k + 1, Some(k as usize), output);
        } else {
            lemma_scan_before_output(args, present, i, j, k + 1, input, output);
        }
    }
}

/// Called as neither a copy tool nor a stripper, with exactly one `-o`
/// (at `i`, followed by an argument), the tool copies the last argument
/// after the program that is no flag, names an existing path and is not the
/// output, to the argument after `-o`.
pub proof fn law_output_flag_names_output(
    args: Seq<Seq<char>>,
    present: Seq<bool>,
    i: int,
    j: int,
)
    requires
        present.len() == args.len(),
        forall|p: int|
            0 <= p && p + 2 <= args[0].len() ==> #[trigger] args[0].subrange(p, p + 2) != seq!['c', 'p'],
        forall|p: int|
            0 <= p && p + 10 <= args[0].len() ==> #[trigger] args[0].subrange(p, p + 10) != seq![
                'w',
                'a',
                's',
                'm',
                '-',
                's',
                't',
                'r',
                'i',
                'p',
            ],
        1 <= i,
        i + 1 < args.len(),
        args[i] == seq!['-', 'o'],
        forall|t: int| 1 <= t < args.len() && t != i ==> args[t] != seq!['-', 'o'],
        input_candidate(args, present, i, j),
        forall|t: int| #[trigger] input_candidate(args, present, i, t) ==> t <= j,
    ensures
        fallback_plan(args, present) == (FallbackAction::Copy {
            from: j as usize,
            to: (i + 1) as usize,
        }),
{
    assert(program_name(args) == args[0]);
    lemma_scan_before_output(args, present, i, j, 1, None, None);
}

/// Scanning arguments among which no `-o` stands leaves the output as it
/// is.
proof fn lemma_scan_without_output(
    args: Seq<Seq<char>>,
    present: Seq<bool>,
    k: int,
    input: Option<usize>,
    output: Option<usize>,
)
    requires
        forall|t: int| 1 <= t < args.len() ==> args[t] != seq!['-', 'o'],
    ensures
        scan(args, present, k, input, output).1 == output,
    decreases args.len() - k,
{
    if 1 <= k < args.len() {
        assert(args[k] != seq!['-', 'o']);
        lemma_scan_without_output(args, present, k + 1, Some(k as usize), output);
        lemma_scan_without_output(args, present, k + 1, input, output);
    }
}

/// Called as neither a copy tool nor a stripper, with no `-o` among its
/// arguments, the tool copies nothing.
pub proof fn law_no_output_flag_copies_nothing(args: Seq<Seq<char>>, present: Seq<bool>)
    requires
        args.len() >= 1,
        forall|p: int|
            0 <= p && p + 2 <= args[0].len() ==> #[trigger] args[0].subrange(p, p + 2) != seq!['c', 'p'],
        forall|t: int| 1 <= t < args.len() ==> args[t] != seq!['-', 'o'],
    ensures
        fallback_plan(args, present) == FallbackAction::Nothing,
{
    assert(program_name(args) == args[0]);
    lemma_scan_without_output(args, present, 1, None, None);
}

/// Called as a copy tool with at least a source and a destination, the
/// tool copies the first argument after the program to the second, whatever
/// else the arguments hold.
pub proof fn law_copy_tool_copies(args: Seq<Seq<char>>, present: Seq<bool>, p: int)
    requires
        args.len() >= 3,
        0 <= p,
        p + 2 <= args[0].len(),
        args[0][p] == 'c',
        args[0][p + 1] == 'p',
    ensures
        fallback_plan(args, present) == (FallbackAction::Copy { from: 1, to: 2 }),
{
    assert(program_name(args) == args[0]);
    assert(args[0].subrange(p, p + seq!['c', 'p'].len()) =~= seq!['c', 'p']);
}

/// Called as a stripper (and not as a copy tool with two arguments), the
/// tool does nothing.
pub proof fn law_stripper_does_nothing(args: Seq<Seq<char>>, present: Seq<bool>, p: int)
    requires
        args.len() >= 1,
        0 <= p,
        p + 10 <= args[0].len(),
        args[0].subrange(p, p + 10) == seq!['w', 'a', 's', 'm', '-', 's', 't', 'r', 'i', 'p'],
        args.len() < 3 || forall|q: int|
            0 <= q && q + 2 <= args[0].len() ==> #[trigger] args[0].subrange(q, q + 2) != seq!['c', 'p'],
    ensures
        fallback_plan(args, present) == FallbackAction::Nothing,
{
    assert(program_name(args) == args[0]);
    let strip = seq!['w', 'a', 's', 'm', '-', 's', 't', 'r', 'i', 'p'];
    assert(args[0].subrange(p, p + strip.len()) == strip);
}

} // verus!
