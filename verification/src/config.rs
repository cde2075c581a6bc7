//! Merging of configuration-file arguments with command-line arguments.
//! Reading the configuration file itself is the caller's business; only
//! plain argument lists come in here.

use crate::string_utils::{spec_lines, spec_trim, split_into_lines, str_eq, trim_str};
use vstd::prelude::*;
use vstd::string::*;

verus! {

/// Whether a configuration line carries an argument: after trimming it is
/// neither empty nor a `#` comment.
pub open spec fn keep_config_line(l: Seq<char>) -> bool {
    spec_trim(l).len() > 0 && spec_trim(l)[0] != '#'
}

/// The arguments the configuration lines carry, trimmed, in order.
pub open spec fn config_args_of(lines: Seq<Seq<char>>) -> Seq<Seq<char>>
    decreases lines.len(),
{
    if lines.len() == 0 {
        Seq::empty()
    } else {
        let rest = config_args_of(lines.drop_last());
        if keep_config_line(lines.last()) {
            rest.push(spec_trim(lines.last()))
        } else {
            rest
        }
    }
}

/// Parses the config file contents.
///
/// # Arguments
/// * `content`: the text of the config file
///
/// # Returns
/// A list of all flags specified in the config file (ignoring empty and
/// comment lines).
pub fn parse_config_file(content: &str) -> (r: Vec<String>)
    ensures
        r.deep_view() == config_args_of(spec_lines(content@)),
{
    let lines = split_into_lines(content);
    let mut argv: Vec<String> = Vec::new();
    let n = lines.len();
    let mut i: usize = 0;
    proof {
        assert(lines.deep_view().take(0) =~= Seq::<Seq<char>>::empty());
        assert(argv.deep_view() =~= config_args_of(lines.deep_view().take(0)));
    }
    while i < n
        invariant
            n == lines@.len(),
            lines.deep_view() == spec_lines(content@),
            0 <= i <= n,
            argv.deep_view() == config_args_of(lines.deep_view().take(i as int)),
        decreases n - i,
    {
        proof {
            assert(lines.deep_view().take(i as int + 1).drop_last() =~= lines.deep_view().take(
                i as int,
            ));
            assert(lines.deep_view().take(i as int + 1).last() == lines@[i as int]@);
        }
        let cur_line = trim_str(lines[i].as_str());
        let keep = if cur_line.unicode_len() == 0 {
            false
        } else {
            cur_line.get_char(0) != '#'
        };
        if keep {
            let ghost old_argv = argv.deep_view();
            argv.push(cur_line.to_owned());
            proof {
                assert(argv.deep_view() =~= old_argv.push(spec_trim(lines@[i as int]@)));
            }
        }
        proof {
            assert(argv.deep_view() =~= config_args_of(lines.deep_view().take(i as int + 1)));
        }
        i += 1;
    }
    proof {
        assert(lines.deep_view().take(n as int) =~= lines.deep_view());
    }
    argv
}

/// Whether some argument is the literal `--no-config`.
pub open spec fn spec_has_no_config(args: Seq<Seq<char>>) -> bool {
    exists|i: int| 0 <= i < args.len() && args[i] == "--no-config"@
}

/// What merging yields: the command-line arguments alone when there is
/// nothing to merge or merging was declined, else the binary name, then the
/// configuration arguments, then the remaining command-line arguments, so
/// that command-line arguments supersede configuration ones.
pub open spec fn spec_merged(cli_args: Seq<Seq<char>>, config_args: Seq<Seq<char>>) -> Seq<
    Seq<char>,
> {
    if config_args.len() == 0 || spec_has_no_config(cli_args) {
        cli_args
    } else {
        cli_args.take(1) + config_args + cli_args.skip(1)
    }
}

/// Merges the CLI arguments and config file arguments together into one argv.
///
/// # Arguments
/// * `cli_args`: List of CLI arguments (the first argument is the binary name)
/// * `config_args`: List of arguments specified in the config file
///
/// # Returns
/// A list of all arguments by combining the config with the CLI arguments
/// (CLI arguments supersede config arguments).
pub fn merge_cli_config_args(cli_args: &Vec<String>, config_args: &Vec<String>) -> (r: Vec<String>)
    requires
        config_args@.len() > 0 ==> cli_args@.len() > 0,
    ensures
        r.deep_view() == spec_merged(cli_args.deep_view(), config_args.deep_view()),
{
    let mut no_config = false;
    let mut i: usize = 0;
    let n = cli_args.len();
    while i < n
        invariant
            n == cli_args@.len(),
            0 <= i <= n,
            no_config == exists|j: int| 0 <= j < i && cli_args.deep_view()[j] == "--no-config"@,
        decreases n - i,
    {
        if str_eq(cli_args[i].as_str(), "--no-config") {
            proof {
                assert(cli_args.deep_view()[i as int] == cli_args@[i as int]@);
            }
            no_config = true;
        } else {
            proof {
                assert(cli_args.deep_view()[i as int] == cli_args@[i as int]@);
            }
        }
        i += 1;
    }
    proof {
        assert(no_config == spec_has_no_config(cli_args.deep_view()));
    }

    if config_args.len() == 0 || no_config {
        let r = clone_args(cli_args);
        return r;
    }

    let ghost merged = cli_args.deep_view().take(1) + config_args.deep_view()
        + cli_args.deep_view().skip(1);
    assert(cli_args@.len() > 0);
    let m = config_args.len();

    // Merge config and CLI args, put CLI args at the end to supersede config args
    let mut merged_args: Vec<String> = Vec::new();
    merged_args.push(cli_args[0].clone());
    proof {
        assert(merged_args.deep_view()[0] == merged[0]);
    }
    let mut j: usize = 0;
    while j < m
        invariant
            m == config_args@.len(),
            n == cli_args@.len(),
            n > 0,
            0 <= j <= m,
            merged == cli_args.deep_view().take(1) + config_args.deep_view()
                + cli_args.deep_view().skip(1),
            merged_args@.len() == 1 + j,
            forall|p: int| 0 <= p < 1 + j ==> merged_args.deep_view()[p] == merged[p],
        decreases m - j,
    {
        let x = config_args[j].clone();
        proof {
            assert(x@ == config_args.deep_view()[j as int]);
        }
        merged_args.push(x);
        proof {
            assert forall|p: int| 0 <= p < 1 + j + 1 implies merged_args.deep_view()[p]
                == merged[p] by {
                if p == 1 + j {
                    assert(merged_args@[p] == x);
                    assert(merged[p] == config_args.deep_view()[j as int]);
                }
            }
        }
        j += 1;
    }
    let mut k: usize = 1;
    while k < n
        invariant
            m == config_args@.len(),
            n == cli_args@.len(),
            n > 0,
            1 <= k <= n,
            merged == cli_args.deep_view().take(1) + config_args.deep_view()
                + cli_args.deep_view().skip(1),
            merged_args@.len() == m + k,
            forall|p: int| 0 <= p < m + k ==> merged_args.deep_view()[p] == merged[p],
        decreases n - k,
    {
        let x = cli_args[k].clone();
        proof {
            assert(x@ == cli_args.deep_view()[k as int]);
        }
        merged_args.push(x);
        proof {
            assert forall|p: int| 0 <= p < m + k + 1 implies merged_args.deep_view()[p]
                == merged[p] by {
                if p == m + k {
                    assert(merged_args@[p] == x);
                    assert(merged[p] == cli_args.deep_view().skip(1)[p - m - 1]);
                }
            }
        }
        k += 1;
    }
    proof {
        assert(merged_args.deep_view() =~= merged);
    }
    merged_args
}

/// A fresh vector holding the same arguments.
fn clone_args(args: &Vec<String>) -> (r: Vec<String>)
    ensures
        r.deep_view() == args.deep_view(),
        r@.len() == args@.len(),
{
    let mut out: Vec<String> = Vec::new();
    let mut i: usize = 0;
    let n = args.len();
    while i < n
        invariant
            n == args@.len(),
            0 <= i <= n,
            out@.len() == i,
            forall|j: int| 0 <= j < i ==> out.deep_view()[j] == args.deep_view()[j],
        decreases n - i,
    {
        let x = args[i].clone();
        proof {
            assert(x@ == args@[i as int]@);
        }
        out.push(x);
        proof {
            assert forall|j: int| 0 <= j < i + 1 implies out.deep_view()[j]
                == args.deep_view()[j] by {
                if j == i {
                    assert(out@[j] == x);
                }
            }
        }
        i += 1;
    }
    proof {
        assert(out.deep_view() =~= args.deep_view());
    }
    out
}

} // verus!
