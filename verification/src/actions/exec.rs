use vstd::prelude::*;

verus! {

/// A command-execution action: the shell command, its arguments, and the
/// action name its captured output is bound under.
pub struct ExecAction {
    pub command: String,
    pub args: Vec<String>,
    pub output_as: String,
}

/// The variable name an action's captured output is declared under.
pub open spec fn output_key(name: Seq<char>) -> Seq<char> {
    name + ".output"@
}

impl ExecAction {
    pub fn new(command: &str, args: Vec<&str>, output_as: &str) -> (r: ExecAction)
        ensures
            r.command@ == command@,
            r.output_as@ == output_as@,
            r.args@.len() == args@.len(),
            forall|i: int| 0 <= i < args@.len() ==> r.args@[i]@ == args@[i]@,
    {
        let mut owned: Vec<String> = Vec::new();
        let mut i: usize = 0;
        while i < args.len()
            invariant
                0 <= i <= args.len(),
                owned@.len() == i,
                forall|k: int| 0 <= k < i ==> owned@[k]@ == args@[k]@,
            decreases args.len() - i,
        {
            owned.push(String::from_str(args[i]));
            i = i + 1;
        }
        ExecAction {
            command: String::from_str(command),
            args: owned,
            output_as: String::from_str(output_as),
        }
    }

    /// The context key this action's output is bound under.
    pub fn output_var(&self) -> (r: String)
        ensures
            r@ == output_key(self.output_as@),
    {
        let mut r = self.output_as.clone();
        r.append(".output");
        r
    }
}

} // verus!
