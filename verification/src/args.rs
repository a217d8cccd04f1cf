//! Options on the command line of the harness.

use vstd::prelude::*;
use vstd::string::*;

verus! {

/// The texts of the arguments, in order.
pub open spec fn argument_texts(args: Seq<String>) -> Seq<Seq<char>> {
    Seq::new(args.len(), |i: int| args[i]@)
}

/// True when `index` is the first position at which `flag` stands among the
/// arguments.
pub open spec fn is_first_occurrence(args: Seq<Seq<char>>, flag: Seq<char>, index: int) -> bool {
    &&& 0 <= index < args.len()
    &&& args[index] == flag
    &&& forall|j: int| 0 <= j < index ==> args[j] != flag
}

/// True when `flag` stands nowhere among the arguments.
pub open spec fn is_absent(args: Seq<Seq<char>>, flag: Seq<char>) -> bool {
    forall|j: int| 0 <= j < args.len() ==> args[j] != flag
}

/// True when the first occurrence of `flag`, if there is one, has an
/// argument after it.
pub open spec fn has_value_if_present(args: Seq<Seq<char>>, flag: Seq<char>) -> bool {
    forall|index: int| is_first_occurrence(args, flag, index) ==> index + 1 < args.len()
}

/// What an option is set to: the argument after the first occurrence of
/// `flag`, or `none` when the flag is absent.
pub open spec fn option_value(args: Seq<Seq<char>>, flag: Seq<char>, value: Seq<char>) -> bool {
    &&& is_absent(args, flag) ==> value == "none"@
    &&& forall|index: int| is_first_occurrence(args, flag, index) ==> value == args[index + 1]
}

/// Looks an option up among the arguments.
fn flag_value(args: &Vec<String>, flag: &str) -> (value: String)
    requires
        has_value_if_present(argument_texts(args@), flag@),
    ensures
        option_value(argument_texts(args@), flag@, value@),
{
    let wanted = String::from_str(flag);
    let mut index: usize = 0;
    while index < args.len()
        invariant
            index <= args@.len(),
            wanted@ == flag@,
            has_value_if_present(argument_texts(args@), flag@),
            forall|j: int| 0 <= j < index ==> argument_texts(args@)[j] != flag@,
        decreases args@.len() - index,
    {
        if args[index] == wanted {
            assert(is_first_occurrence(argument_texts(args@), flag@, index as int));
            return args[index + 1].clone();
        }
        index = index + 1;
    }
    String::from_str("none")
}

/// The benchmark method chosen with `--method`; `none` when the option is
/// absent. The option must not be the last argument.
pub fn get_test_method(args: &Vec<String>) -> (method: String)
    requires
        has_value_if_present(argument_texts(args@), "--method"@),
    ensures
        option_value(argument_texts(args@), "--method"@, method@),
{
    flag_value(args, "--method")
}

/// The backup type chosen with `--backup-type`; `none` when the option is
/// absent. The option must not be the last argument.
pub fn get_backup_type(args: &Vec<String>) -> (backup_type: String)
    requires
        has_value_if_present(argument_texts(args@), "--backup-type"@),
    ensures
        option_value(argument_texts(args@), "--backup-type"@, backup_type@),
{
    flag_value(args, "--backup-type")
}

} // verus!
