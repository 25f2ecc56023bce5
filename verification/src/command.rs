//! A command ready to run: the program's name and its arguments.

use vstd::prelude::*;

verus! {

/// The name of a program and the arguments to start it with.
#[derive(Debug, Clone)]
pub struct Command {
    pub program: String,
    pub args: Vec<String>,
}

impl Command {
    /// The arguments as text, in order.
    pub open spec fn arguments(&self) -> Seq<Seq<char>> {
        self.args.deep_view()
    }

    /// A command that starts `program` with no arguments.
    pub fn new(program: &str) -> (cmd: Self)
        ensures
            cmd.program@ == program@,
            cmd.arguments() == Seq::<Seq<char>>::empty(),
    {
        let cmd = Command { program: program.to_owned(), args: Vec::new() };
        assert(cmd.arguments() =~= Seq::<Seq<char>>::empty());
        cmd
    }

    /// Appends one argument.
    pub fn arg(&mut self, arg: &str) -> (r: &mut Self)
        ensures
            r.arguments() == old(self).arguments().push(arg@),
            r.program == old(self).program,
            *final(self) == *final(r),
    {
        self.args.push(arg.to_owned());
        assert(self.arguments() =~= old(self).arguments().push(arg@));
        self
    }

    /// Appends every item of `args`, in order.
    pub fn args(&mut self, args: &[&str]) -> (r: &mut Self)
        ensures
            r.arguments() == old(self).arguments() + args.deep_view(),
            r.program == old(self).program,
            *final(self) == *final(r),
    {
        let mut i: usize = 0;
        while i < args.len()
            invariant
                i <= args.len(),
                self.program == old(self).program,
                self.arguments() == old(self).arguments() + args.deep_view().take(i as int),
            decreases args.len() - i,
        {
            let ghost before = self.arguments();
            self.args.push(args[i].to_owned());
            assert(self.arguments() =~= before.push(args[i as int]@));
            i = i + 1;
            assert(args.deep_view().take(i as int) =~= args.deep_view().take(i - 1).push(
                args[i - 1]@,
            ));
        }
        assert(args.deep_view().take(i as int) =~= args.deep_view());
        self
    }

    /// The program's name.
    pub fn get_program(&self) -> (name: &str)
        ensures
            name@ == self.program@,
    {
        self.program.as_str()
    }

    /// The arguments, in order.
    pub fn get_args(&self) -> (args: Vec<&str>)
        ensures
            args.deep_view() == self.arguments(),
    {
        let mut out: Vec<&str> = Vec::new();
        let mut i: usize = 0;
        while i < self.args.len()
            invariant
                i <= self.args.len(),
                out.deep_view() == self.arguments().take(i as int),
            decreases self.args.len() - i,
        {
            let ghost before = out.deep_view();
            out.push(self.args[i].as_str());
            assert(out.deep_view() =~= before.push(self.args[i as int]@));
            i = i + 1;
            assert(self.arguments().take(i as int) =~= self.arguments().take(i - 1).push(
                self.args[i - 1]@,
            ));
        }
        assert(self.arguments().take(i as int) =~= self.arguments());
        out
    }
}

} // verus!
