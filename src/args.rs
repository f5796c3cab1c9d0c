//! Command-line roots: which paths a run walks and how they are announced.
use vstd::prelude::*;

verus! {

/// `arg` starts with `~/`.
pub open spec fn home_relative(arg: Seq<char>) -> bool {
    arg.len() >= 2 && arg[0] == '~' && arg[1] == '/'
}

/// `arg` with a leading `~` of a leading `~/` replaced by `home`.
pub open spec fn expanded(arg: Seq<char>, home: Seq<char>) -> Seq<char> {
    if home_relative(arg) {
        home + arg.subrange(1, arg.len() as int)
    } else {
        arg
    }
}

/// The path an argument names, given the user's home directory.
pub fn expand_arg(arg: &str, home: &str) -> (r: String)
    ensures
        r@ == expanded(arg@, home@),
{
    let n = arg.unicode_len();
    if n >= 2 && arg.get_char(0) == '~' && arg.get_char(1) == '/' {
        String::from_str(home).concat(arg.substring_char(1, n))
    } else {
        String::from_str(arg)
    }
}

/// The roots a run walks: the arguments given, or the current directory when
/// there are none.
pub fn root_arguments(args: Vec<String>) -> (r: Vec<String>)
    ensures
        args@.len() == 0 ==> r.deep_view() == seq!["./"@],
        args@.len() > 0 ==> r.deep_view() == args.deep_view(),
{
    if args.len() == 0 {
        let mut r: Vec<String> = Vec::new();
        r.push(String::from_str("./"));
        assert(r.deep_view() =~= seq!["./"@]);
        r
    } else {
        args
    }
}

/// Whether each root's output is announced with a header and closed with a
/// separator: only when more than one root is walked.
pub fn announce_roots(root_count: usize) -> (r: bool)
    ensures
        r == (root_count > 1),
{
    root_count > 1
}

} // verus!
