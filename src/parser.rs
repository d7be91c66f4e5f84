use vstd::prelude::*;

use crate::executor::Executor;
use crate::routine::{routine_of_words, routine_views, Routine, RoutineModel};
use crate::strategy::Strategy;
use crate::text::{is_word, lemma_words_are_words, pieces, split_on, split_words, views, words};

verus! {

/// The routines that a list of command texts describes: each text is split
/// into words, and each text with at least one word gives one routine.
pub open spec fn routines_of(cmds: Seq<Seq<char>>) -> Seq<RoutineModel> {
    cmds.filter_map(|g: Seq<char>| routine_of_words(words(g)))
}

/// What a command line describes. The separator `&` takes precedence over
/// `;`, and either over plain whitespace, where every word is a routine of
/// its own.
pub open spec fn parse_line_model(s: Seq<char>) -> (Seq<RoutineModel>, Strategy) {
    if s.contains('&') {
        (routines_of(pieces(s, '&')), Strategy::Dependent)
    } else if s.contains(';') {
        (routines_of(pieces(s, ';')), Strategy::Independent)
    } else {
        (bare_routines(words(s)), Strategy::Independent)
    }
}

/// One routine without arguments for each word.
pub open spec fn bare_routines(w: Seq<Seq<char>>) -> Seq<RoutineModel> {
    w.map_values(|n: Seq<char>| (n, Seq::<Seq<char>>::empty()))
}

fn has_char(s: &str, c: char) -> (r: bool)
    ensures
        r == s@.contains(c),
{
    let n = s.unicode_len();
    let mut i: usize = 0;
    while i < n
        invariant
            n == s@.len(),
            i <= n,
            forall|j: int| 0 <= j < i ==> s@[j] != c,
        decreases n - i,
    {
        if s.get_char(i) == c {
            return true;
        }
        i = i + 1;
    }
    false
}

/// Turns command lines into routines.
pub struct Parser;

impl Default for Parser {
    fn default() -> (r: Parser) {
        Parser
    }
}

impl Parser {
    /// Reads a list of commands, one routine for each command that holds a
    /// word, all independent of each other.
    pub fn parse(&self, commands: &[String], parallel: bool, verbose: bool) -> (r: Executor)
        ensures
            routine_views(r.routines@) == routines_of(views(commands@)),
            r.strategy == Strategy::Independent,
            r.parallel == parallel,
            r.verbose == verbose,
    {
        let routines = self.parse_commands(commands);
        Executor::new(parallel, verbose, routines)
    }

    /// Reads one command line, whose separators decide how the routines
    /// relate.
    pub fn parse_line(&self, input: &str, parallel: bool, verbose: bool) -> (r: Executor)
        ensures
            (routine_views(r.routines@), r.strategy) == parse_line_model(input@),
            r.parallel == parallel,
            r.verbose == verbose,
    {
        if has_char(input, '&') {
            let parts = split_on(input, '&');
            let routines = self.parse_commands(parts.as_slice());
            Executor::with_strategy(parallel, verbose, routines, Strategy::Dependent)
        } else if has_char(input, ';') {
            let parts = split_on(input, ';');
            let routines = self.parse_commands(parts.as_slice());
            Executor::with_strategy(parallel, verbose, routines, Strategy::Independent)
        } else {
            let names = split_words(input);
            let mut routines: Vec<Routine> = Vec::new();
            let mut i: usize = 0;
            while i < names.len()
                invariant
                    i <= names@.len(),
                    views(names@) == words(input@),
                    routine_views(routines@) == bare_routines(views(names@).subrange(0, i as int)),
                decreases names@.len() - i,
            {
                let r = Routine { name: names[i].clone(), args: Vec::new() };
                proof {
                    assert(views(r.args@) =~= Seq::<Seq<char>>::empty());
                    assert(routine_views(routines@.push(r)) =~= routine_views(routines@).push(r@));
                    assert(bare_routines(views(names@).subrange(0, i + 1)) =~= bare_routines(
                        views(names@).subrange(0, i as int),
                    ).push(r@));
                }
                routines.push(r);
                i = i + 1;
            }
            assert(views(names@).subrange(0, names@.len() as int) =~= views(names@));
            Executor::with_strategy(parallel, verbose, routines, Strategy::Independent)
        }
    }

    /// Reads the commands given on the command line: a single command that
    /// holds `&` or `;` is a command line with separators, anything else a
    /// list of commands.
    pub fn parse_input(&self, commands: &[String], parallel: bool, verbose: bool) -> (r: Executor)
        ensures
            commands@.len() == 1 && (commands@[0]@.contains('&') || commands@[0]@.contains(';'))
                ==> (routine_views(r.routines@), r.strategy) == parse_line_model(commands@[0]@),
            !(commands@.len() == 1 && (commands@[0]@.contains('&') || commands@[0]@.contains(';')))
                ==> routine_views(r.routines@) == routines_of(views(commands@)) && r.strategy
                == Strategy::Independent,
            r.parallel == parallel,
            r.verbose == verbose,
    {
        if commands.len() == 1 {
            let line = commands[0].as_str();
            if has_char(line, '&') || has_char(line, ';') {
                return self.parse_line(line, parallel, verbose);
            }
        }
        self.parse(commands, parallel, verbose)
    }

    /// One routine for each command that holds a word: its first word is the
    /// name and the others are the arguments.
    pub fn parse_commands(&self, commands: &[String]) -> (r: Vec<Routine>)
        ensures
            routine_views(r@) == routines_of(views(commands@)),
    {
        let mut out: Vec<Routine> = Vec::new();
        let mut i: usize = 0;
        while i < commands.len()
            invariant
                i <= commands@.len(),
                routine_views(out@) == routines_of(views(commands@.subrange(0, i as int))),
            decreases commands@.len() - i,
        {
            let mut ws = split_words(commands[i].as_str());
            let ghost pre = views(commands@.subrange(0, i as int));
            let ghost cur = views(commands@.subrange(0, i + 1));
            assert(cur.drop_last() =~= pre);
            assert(cur.last() == commands@[i as int]@);
            if ws.len() > 0 {
                let ghost w = views(ws@);
                let name = ws.remove(0);
                let r = Routine { name, args: ws };
                proof {
                    assert(views(ws@) =~= w.drop_first());
                    assert(routine_views(out@.push(r)) =~= routine_views(out@).push(r@));
                    assert(routines_of(cur) =~= routines_of(pre).push(r@));
                }
                out.push(r);
            } else {
                assert(routines_of(cur) =~= routines_of(pre));
            }
            i = i + 1;
        }
        assert(commands@.subrange(0, commands@.len() as int) =~= commands@);
        out
    }
}

/// A command line with neither `&` nor `;` gives one routine without
/// arguments for each of its whitespace-separated words, independent of each
/// other.
pub proof fn lemma_whitespace_line(s: Seq<char>)
    requires
        !s.contains('&'),
        !s.contains(';'),
    ensures
        parse_line_model(s).0.len() == words(s).len(),
        parse_line_model(s).1 == Strategy::Independent,
        forall|i: int|
            0 <= i < words(s).len() ==> #[trigger] parse_line_model(s).0[i] == (
                words(s)[i],
                Seq::<Seq<char>>::empty(),
            ),
{
}

/// Reading the same command line twice gives the same routines and the same
/// strategy.
pub proof fn lemma_parse_line_idempotent(input: Seq<char>, a: Executor, b: Executor)
    requires
        (routine_views(a.routines@), a.strategy) == parse_line_model(input),
        (routine_views(b.routines@), b.strategy) == parse_line_model(input),
    ensures
        routine_views(a.routines@) == routine_views(b.routines@),
        a.strategy == b.strategy,
{
}

/// Reading the same list of commands twice gives the same routines and the
/// same strategy.
pub proof fn lemma_parse_idempotent(commands: Seq<String>, a: Executor, b: Executor)
    requires
        routine_views(a.routines@) == routines_of(views(commands)),
        routine_views(b.routines@) == routines_of(views(commands)),
        a.strategy == Strategy::Independent,
        b.strategy == Strategy::Independent,
    ensures
        routine_views(a.routines@) == routine_views(b.routines@),
        a.strategy == b.strategy,
{
}

/// A routine as parsing gives it: a name and arguments that are all words.
pub open spec fn is_parsed_routine(r: RoutineModel) -> bool {
    is_word(r.0) && forall|j: int| 0 <= j < r.1.len() ==> is_word(#[trigger] r.1[j])
}

proof fn lemma_routines_of_parsed(cmds: Seq<Seq<char>>)
    ensures
        forall|i: int|
            0 <= i < routines_of(cmds).len() ==> is_parsed_routine(#[trigger] routines_of(cmds)[i]),
    decreases cmds.len(),
{
    if cmds.len() > 0 {
        lemma_routines_of_parsed(cmds.drop_last());
        let w = words(cmds.last());
        lemma_words_are_words(cmds.last());
        if w.len() > 0 {
            let r = (w[0], w.drop_first());
            assert(is_word(w[0]));
            assert forall|j: int| 0 <= j < r.1.len() implies is_word(#[trigger] r.1[j]) by {
                assert(r.1[j] == w[j + 1]);
            }
            let prev = routines_of(cmds.drop_last());
            assert(routines_of(cmds) =~= prev.push(r));
        } else {
            assert(routines_of(cmds) =~= routines_of(cmds.drop_last()));
        }
    }
}

/// No routine that parsing gives is empty: each has a name, and neither its
/// name nor any of its arguments is empty or holds whitespace.
pub proof fn lemma_parsed_routines_are_words(s: Seq<char>, cmds: Seq<Seq<char>>)
    ensures
        forall|i: int|
            0 <= i < parse_line_model(s).0.len() ==> is_parsed_routine(
                #[trigger] parse_line_model(s).0[i],
            ),
        forall|i: int|
            0 <= i < routines_of(cmds).len() ==> is_parsed_routine(#[trigger] routines_of(cmds)[i]),
{
    lemma_routines_of_parsed(cmds);
    lemma_routines_of_parsed(pieces(s, '&'));
    lemma_routines_of_parsed(pieces(s, ';'));
    lemma_words_are_words(s);
    assert forall|i: int| 0 <= i < parse_line_model(s).0.len() implies is_parsed_routine(
        #[trigger] parse_line_model(s).0[i],
    ) by {
        if !s.contains('&') && !s.contains(';') {
            assert(is_word(words(s)[i]));
        }
    }
}

} // verus!
