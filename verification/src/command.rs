//! Resolution of a `terminal/create` request's launch vector: structured
//! arguments are taken verbatim, shell operators force `/bin/bash -lc`,
//! otherwise the command line is word-split, falling back to a raw launch.

use vstd::prelude::*;
use vstd::string::StrSliceExecFns;

verus! {

/// Characters that by themselves mark a command line as needing a shell.
/// A lone `|` also covers the two-character `||` operator.
pub open spec fn is_single_shell_token(c: char) -> bool {
    c == '|' || c == ';' || c == '`' || c == '>' || c == '<'
}

/// Two-character operators that mark a command line as needing a shell.
pub open spec fn is_shell_pair(a: char, b: char) -> bool {
    (a == '&' && b == '&') || (a == '$' && b == '(')
}

/// Whether a command line contains any of the shell operators
/// `&& || | ; $( ` > <`.
pub open spec fn has_shell_operator(s: Seq<char>) -> bool {
    (exists|i: int| 0 <= i < s.len() && is_single_shell_token(#[trigger] s[i])) || (exists|i: int|
        0 <= i && i + 1 < s.len() && is_shell_pair(#[trigger] s[i], s[i + 1]))
}

/// Decides whether the command must go through a shell.
pub fn command_uses_shell_operators(command: &str) -> (r: bool)
    ensures
        r == has_shell_operator(command@),
{
    let n = command.unicode_len();
    let mut i: usize = 0;
    loop
        invariant_except_break
            0 <= i <= n,
            n == command@.len(),
            forall|j: int| 0 <= j < i ==> !is_single_shell_token(#[trigger] command@[j]),
            forall|j: int| 0 <= j < i && j + 1 < command@.len() ==> !is_shell_pair(
                #[trigger] command@[j],
                command@[j + 1],
            ),
        ensures
            has_shell_operator(command@) == (i < command@.len()),
        decreases n - i,
    {
        if i >= n {
            proof {
                assert(!has_shell_operator(command@)) by {
                    if has_shell_operator(command@) {
                        if exists|x: int|
                            0 <= x < command@.len() && is_single_shell_token(
                                #[trigger] command@[x],
                            ) {
                            let x = choose|x: int|
                                0 <= x < command@.len() && is_single_shell_token(
                                    #[trigger] command@[x],
                                );
                        } else {
                            let x = choose|x: int|
                                0 <= x && x + 1 < command@.len() && is_shell_pair(
                                    #[trigger] command@[x],
                                    command@[x + 1],
                                );
                        }
                    }
                }
            }
            break;
        }
        let c = command.get_char(i);
        if c == '|' || c == ';' || c == '`' || c == '>' || c == '<' {
            proof {
                assert(is_single_shell_token(command@[i as int]));
            }
            break;
        }
        if i + 1 < n {
            let d = command.get_char(i + 1);
            if (c == '&' && d == '&') || (c == '$' && d == '(') {
                proof {
                    assert(is_shell_pair(command@[i as int], command@[i as int + 1]));
                }
                break;
            }
        }
        i = i + 1;
    }
    i < n
}

/// What `shlex` word splitting yields for a command line: `None` on
/// erroneous input, otherwise the list of words. The result depends on
/// the characters alone.
pub uninterp spec fn shlex_split_of(s: Seq<char>) -> Option<Seq<Seq<char>>>;

/// Relies on `shlex::split`: POSIX-shell word splitting of the whole
/// string, returning `None` exactly on erroneous input (for example an
/// unclosed quote).
#[verifier::external_body]
pub(crate) fn shlex_split(s: &str) -> (r: Option<Vec<String>>)
    ensures
        match r {
            Some(parts) => shlex_split_of(s@) matches Some(p) && parts.deep_view() == p,
            None => shlex_split_of(s@) is None,
        },
{
    shlex::split(s)
}

/// How the launch vector for `r.0`/`r.1` was derived; returned as `r.2`.
pub open spec fn launch_vector_spec(
    raw_command: Seq<char>,
    request_args: Option<Seq<Seq<char>>>,
    r0: Seq<char>,
    r1: Seq<Seq<char>>,
    r2: Seq<char>,
) -> bool {
    match request_args {
        Some(args) => r0 == raw_command && r1 == args && r2 == "structured"@,
        None => {
            if has_shell_operator(raw_command) {
                &&& r0 == "/bin/bash"@
                &&& r1 == seq!["-lc"@, raw_command]
                &&& r2 == "shell"@
            } else {
                match shlex_split_of(raw_command) {
                    Some(parts) => {
                        if parts.len() > 0 {
                            &&& r0 == parts[0]
                            &&& r1 == parts.skip(1)
                            &&& r2 == "shlex"@
                        } else {
                            &&& r0 == raw_command
                            &&& r1 == Seq::<Seq<char>>::empty()
                            &&& r2 == "raw"@
                        }
                    },
                    None => {
                        &&& r0 == raw_command
                        &&& r1 == Seq::<Seq<char>>::empty()
                        &&& r2 == "raw"@
                    },
                }
            }
        },
    }
}

/// Resolves the launch vector for `terminal/create`, in this order:
/// explicit arguments launch verbatim ("structured"); shell operators in
/// the command launch `/bin/bash -lc <command>` ("shell"); otherwise the
/// command is word-split ("shlex"), and if splitting fails or yields no
/// words the command launches bare ("raw").
pub fn normalize_terminal_command(raw_command: String, request_args: Option<Vec<String>>) -> (r: (
    String,
    Vec<String>,
    &'static str,
))
    ensures
        launch_vector_spec(
            raw_command@,
            match request_args {
                Some(args) => Some(args.deep_view()),
                None => None,
            },
            r.0@,
            r.1.deep_view(),
            r.2@,
        ),
{
    if let Some(args) = request_args {
        return (raw_command, args, "structured");
    }
    if command_uses_shell_operators(raw_command.as_str()) {
        let mut shell_args: Vec<String> = Vec::new();
        shell_args.push("-lc".to_owned());
        shell_args.push(raw_command);
        proof {
            assert(shell_args.deep_view() =~= seq!["-lc"@, shell_args@[1]@]);
        }
        return ("/bin/bash".to_owned(), shell_args, "shell");
    }
    match shlex_split(raw_command.as_str()) {
        Some(mut parts) => {
            if parts.len() > 0 {
                let ghost whole = parts.deep_view();
                let program = parts.remove(0);
                proof {
                    assert(program@ == whole[0]);
                    assert(parts.deep_view() =~= whole.skip(1));
                }
                (program, parts, "shlex")
            } else {
                let empty: Vec<String> = Vec::new();
                proof {
                    assert(parts.deep_view() =~= Seq::<Seq<char>>::empty());
                    assert(empty.deep_view() =~= Seq::<Seq<char>>::empty());
                }
                (raw_command, empty, "raw")
            }
        },
        None => {
            let empty: Vec<String> = Vec::new();
            proof {
                assert(empty.deep_view() =~= Seq::<Seq<char>>::empty());
            }
            (raw_command, empty, "raw")
        },
    }
}

} // verus!
