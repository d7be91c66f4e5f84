use vstd::prelude::*;
use vstd::string::*;

use crate::text::views;

verus! {

/// One external invocation: a sub-command name and its arguments.
#[derive(Clone, Debug)]
pub struct Routine {
    pub name: String,
    pub args: Vec<String>,
}

/// What a routine stands for: its name and its arguments, as text.
pub type RoutineModel = (Seq<char>, Seq<Seq<char>>);

impl View for Routine {
    type V = RoutineModel;

    open spec fn view(&self) -> RoutineModel {
        (self.name@, views(self.args@))
    }
}

pub open spec fn routine_views(v: Seq<Routine>) -> Seq<RoutineModel> {
    v.map_values(|r: Routine| r@)
}

/// The routine that a non-empty list of words describes: the first word is
/// the name, the others are the arguments.
pub open spec fn routine_of_words(w: Seq<Seq<char>>) -> Option<RoutineModel> {
    if w.len() == 0 {
        None
    } else {
        Some((w[0], w.drop_first()))
    }
}

/// The text of a command line: the name, then each argument after one space.
pub open spec fn command_text(name: Seq<char>, args: Seq<Seq<char>>) -> Seq<char>
    decreases args.len(),
{
    if args.len() == 0 {
        name
    } else {
        command_text(name, args.drop_last()) + seq![' '] + args.last()
    }
}

impl Routine {
    /// The command as it is shown in progress lines and error messages.
    pub fn command_line(&self) -> (r: String)
        ensures
            r@ == command_text(self.name@, views(self.args@)),
    {
        let mut out = self.name.clone();
        let mut i: usize = 0;
        while i < self.args.len()
            invariant
                i <= self.args@.len(),
                out@ == command_text(self.name@, views(self.args@.subrange(0, i as int))),
            decreases self.args@.len() - i,
        {
            let ghost before = views(self.args@.subrange(0, i as int));
            assert(views(self.args@.subrange(0, i + 1)).drop_last() =~= before);
            out.append(" ");
            out.append(self.args[i].as_str());
            proof {
                reveal_strlit(" ");
                assert(out@ =~= command_text(self.name@, before) + seq![' '] + self.args@[i as int]@);
            }
            i = i + 1;
        }
        assert(self.args@.subrange(0, self.args@.len() as int) =~= self.args@);
        out
    }
}

} // verus!
