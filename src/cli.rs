use vstd::prelude::*;
use vstd::string::*;

use crate::text::views;

verus! {

/// The command line of the tool: the commands to run and how to run them.
pub struct Cli {
    pub commands: Vec<String>,
    pub verbose: bool,
    pub parallel: bool,
}

/// Whether `a` is the subcommand word that cargo passes on to the tool.
pub open spec fn is_subcommand_word(a: Seq<char>) -> bool {
    a == seq!['q']
}

impl Cli {
    /// The arguments without the subcommand word, in order.
    pub fn strip_subcommand(args: &[String]) -> (r: Vec<String>)
        ensures
            views(r@) == views(args@).filter(|a: Seq<char>| !is_subcommand_word(a)),
    {
        let mut out: Vec<String> = Vec::new();
        let mut i: usize = 0;
        while i < args.len()
            invariant
                i <= args@.len(),
                views(out@) == views(args@.subrange(0, i as int)).filter(
                    |a: Seq<char>| !is_subcommand_word(a),
                ),
            decreases args@.len() - i,
        {
            let a = args[i].as_str();
            let is_q = a.unicode_len() == 1 && a.get_char(0) == 'q';
            let ghost pre = views(args@.subrange(0, i as int));
            let ghost cur = views(args@.subrange(0, i + 1));
            proof {
                assert(cur.drop_last() =~= pre);
                assert(cur.last() == a@);
                if is_q {
                    assert(a@ =~= seq!['q']);
                }
                reveal(Seq::filter);
            }
            if !is_q {
                let t = args[i].clone();
                proof {
                    assert(views(out@.push(t)) =~= views(out@).push(t@));
                }
                out.push(t);
            }
            i = i + 1;
        }
        assert(args@.subrange(0, args@.len() as int) =~= args@);
        out
    }
}

} // verus!
