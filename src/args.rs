//! `from=to` rule arguments.
use vstd::prelude::*;
use vstd::string::*;
use crate::harvest::insert_all;
use crate::rules::RuleTable;

verus! {

/// One rule given as `from=to`.
#[derive(Debug, Clone, PartialEq, Eq)]
pub struct ReplacementArg {
    pub from_arg: String,
    pub to_arg: String,
}

/// Whether `s` holds no `=`.
pub open spec fn has_no_eq(s: Seq<char>) -> bool {
    forall|i: int| 0 <= i < s.len() ==> s[i] != '='
}

/// The message for an argument that holds no `=`.
pub open spec fn invalid_format_message(s: Seq<char>) -> Seq<char> {
    "Invalid format: '"@ + s + "'. Expected format: '<string1>=<string2>'"@
}

impl ReplacementArg {
    /// Splits `s` at its first `=`: what stands before it is the key, what
    /// follows it (`=` included) the value. Without any `=` it is an error.
    pub fn from_str(s: &str) -> (r: Result<ReplacementArg, String>)
        ensures
            r is Ok <==> !has_no_eq(s@),
            match r {
                Ok(a) => a.from_arg@ + seq!['='] + a.to_arg@ == s@ && has_no_eq(a.from_arg@),
                Err(msg) => msg@ == invalid_format_message(s@),
            },
    {
        let n = s.unicode_len();
        let mut i: usize = 0;
        while i < n
            invariant
                n == s@.len(),
                i <= n,
                forall|k: int| 0 <= k < i ==> s@[k] != '=',
            decreases n - i,
        {
            if s.get_char(i) == '=' {
                let from_arg = s.substring_char(0, i).to_owned();
                let to_arg = s.substring_char(i + 1, n).to_owned();
                assert(from_arg@ + seq!['='] + to_arg@ =~= s@);
                return Ok(ReplacementArg { from_arg, to_arg });
            }
            i = i + 1;
        }
        let mut msg = String::new();
        msg.append("Invalid format: '");
        msg.append(s);
        msg.append("'. Expected format: '<string1>=<string2>'");
        Err(msg)
    }
}

/// The rules that a list of arguments gives, in order.
pub open spec fn arg_rules(args: Seq<ReplacementArg>) -> Seq<(Seq<char>, Seq<char>)> {
    args.map_values(|a: ReplacementArg| (a.from_arg@, a.to_arg@))
}

/// Inserts each argument's rule into `table`, in order, so that later ones
/// overwrite earlier ones and all of them overwrite what the table held.
pub fn insert_args(table: &mut RuleTable, args: &Vec<ReplacementArg>)
    ensures
        final(table)@ == insert_all(old(table)@, arg_rules(args@)),
{
    let ghost start = table@;
    let mut i: usize = 0;
    while i < args.len()
        invariant
            i <= args@.len(),
            table@ == insert_all(start, arg_rules(args@.subrange(0, i as int))),
        decreases args@.len() - i,
    {
        assert(arg_rules(args@.subrange(0, i + 1)).drop_last() =~= arg_rules(
            args@.subrange(0, i as int),
        ));
        table.insert(args[i].from_arg.clone(), args[i].to_arg.clone());
        i = i + 1;
    }
    assert(args@.subrange(0, i as int) =~= args@);
}

} // verus!
