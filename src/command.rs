use vstd::prelude::*;
use vstd::string::StrSliceExecFns;
use vstd::string::StringExecFns;

verus! {

/// The pieces of `s` between occurrences of `sep`, as `str::split` yields them:
/// `n` separators give `n + 1` pieces, some of them possibly empty.
pub open spec fn split_on(s: Seq<char>, sep: char) -> Seq<Seq<char>>
    decreases s.len(),
{
    if s.len() == 0 {
        seq![Seq::<char>::empty()]
    } else {
        let r = split_on(s.drop_last(), sep);
        if s.last() == sep {
            r.push(Seq::<char>::empty())
        } else {
            r.update(r.len() - 1, r.last().push(s.last()))
        }
    }
}

/// The non-empty entries of `parts`, in order.
pub open spec fn non_empty(parts: Seq<Seq<char>>) -> Seq<Seq<char>>
    decreases parts.len(),
{
    if parts.len() == 0 {
        Seq::empty()
    } else if parts.last().len() == 0 {
        non_empty(parts.drop_last())
    } else {
        non_empty(parts.drop_last()).push(parts.last())
    }
}

/// The space-separated words of one pipeline stage.
pub open spec fn words(s: Seq<char>) -> Seq<Seq<char>> {
    non_empty(split_on(s, ' '))
}

/// The character sequences held by a vector of strings.
pub open spec fn views(v: Seq<String>) -> Seq<Seq<char>> {
    v.map_values(|x: String| x@)
}

/// One pipeline stage: the program name and the full argument vector,
/// whose first entry is the program name itself.
pub struct Command {
    pub filename: String,
    pub args: Vec<String>,
}

impl Command {
    /// `self` is the stage whose words are `w`.
    pub open spec fn is_words(&self, w: Seq<Seq<char>>) -> bool {
        &&& w.len() > 0
        &&& self.filename@ == w[0]
        &&& views(self.args@) == w
    }
}

/// Why a command line was not accepted.
#[derive(Debug, Clone, Copy, PartialEq, Eq, Structural)]
pub enum ParseError {
    /// Some stage of the line holds no word.
    BlankCommand,
}

pub proof fn lemma_split_on_nonempty(s: Seq<char>, sep: char)
    ensures
        split_on(s, sep).len() >= 1,
    decreases s.len(),
{
    if s.len() > 0 {
        lemma_split_on_nonempty(s.drop_last(), sep);
    }
}

/// Splits `line` at every `sep`, keeping empty pieces.
pub fn split_by(line: &str, sep: char) -> (r: Vec<String>)
    ensures
        views(r@) == split_on(line@, sep),
{
    let n = line.unicode_len();
    let mut pieces: Vec<String> = Vec::new();
    let mut st: usize = 0;
    let mut i: usize = 0;
    proof {
        assert(line@.subrange(0, 0) =~= Seq::<char>::empty());
        assert(views(pieces@).push(line@.subrange(0, 0)) =~= split_on(Seq::<char>::empty(), sep));
    }
    while i < n
        invariant
            n == line@.len(),
            st <= i <= n,
            views(pieces@).push(line@.subrange(st as int, i as int)) == split_on(
                line@.subrange(0, i as int),
                sep,
            ),
        decreases n - i,
    {
        let c = line.get_char(i);
        let ghost prev = line@.subrange(0, i as int);
        let ghost cur = line@.subrange(0, i as int + 1);
        proof {
            assert(cur.drop_last() =~= prev);
            assert(cur.last() == c);
            lemma_split_on_nonempty(prev, sep);
        }
        if c == sep {
            let piece = String::from_str(line.substring_char(st, i));
            let ghost old_pieces = pieces@;
            pieces.push(piece);
            proof {
                assert(views(pieces@) =~= views(old_pieces).push(piece@));
                assert(line@.subrange(i as int + 1, i as int + 1) =~= Seq::<char>::empty());
                assert(views(pieces@).push(line@.subrange(i as int + 1, i as int + 1))
                    =~= split_on(cur, sep));
            }
            st = i + 1;
        } else {
            proof {
                let r = split_on(prev, sep);
                assert(line@.subrange(st as int, i as int + 1) =~= line@.subrange(
                    st as int,
                    i as int,
                ).push(c));
                assert(views(pieces@).push(line@.subrange(st as int, i as int + 1)) =~= r.update(
                    r.len() - 1,
                    r.last().push(c),
                ));
            }
        }
        i = i + 1;
    }
    let last = String::from_str(line.substring_char(st, n));
    let ghost old_pieces = pieces@;
    pieces.push(last);
    proof {
        assert(line@.subrange(0, n as int) =~= line@);
        assert(views(pieces@) =~= views(old_pieces).push(last@));
    }
    pieces
}

/// Splits a command line into its pipeline stages, at every `|`.
pub fn parse_pipe(line: &str) -> (r: Vec<String>)
    ensures
        views(r@) == split_on(line@, '|'),
        r@.len() >= 1,
{
    let r = split_by(line, '|');
    proof {
        lemma_split_on_nonempty(line@, '|');
    }
    r
}

/// Parses one pipeline stage into its words.
pub fn parse_cmd_one(line: &str) -> (r: Result<Command, ParseError>)
    ensures
        r is Ok <==> words(line@).len() > 0,
        r matches Ok(c) ==> c.is_words(words(line@)),
        r matches Err(e) ==> e == ParseError::BlankCommand,
{
    let parts = split_by(line, ' ');
    let mut args: Vec<String> = Vec::new();
    let mut i: usize = 0;
    while i < parts.len()
        invariant
            i <= parts@.len(),
            views(args@) == non_empty(views(parts@).subrange(0, i as int)),
        decreases parts@.len() - i,
    {
        let ghost sub = views(parts@).subrange(0, i as int + 1);
        proof {
            assert(sub.drop_last() =~= views(parts@).subrange(0, i as int));
        }
        if parts[i].unicode_len() > 0 {
            let ghost old_args = args@;
            args.push(parts[i].clone());
            proof {
                assert(views(args@) =~= views(old_args).push(parts@[i as int]@));
            }
        }
        i = i + 1;
    }
    proof {
        assert(views(parts@).subrange(0, parts@.len() as int) =~= views(parts@));
    }
    if args.len() == 0 {
        Err(ParseError::BlankCommand)
    } else {
        let filename = args[0].clone();
        Ok(Command { filename, args })
    }
}

/// The command line `line` parses into the stages `cmds`.
pub open spec fn parses_to(line: Seq<char>, cmds: Seq<Command>) -> bool {
    let stages = split_on(line, '|');
    &&& cmds.len() == stages.len()
    &&& forall|k: int| 0 <= k < cmds.len() ==> (#[trigger] cmds[k]).is_words(words(stages[k]))
}

/// Every stage of `line` holds at least one word.
pub open spec fn no_blank_stage(line: Seq<char>) -> bool {
    forall|k: int|
        0 <= k < split_on(line, '|').len() ==> (#[trigger] words(split_on(line, '|')[k])).len()
            > 0
}

/// Parses a command line into its pipeline stages and their words.
pub fn parse_cmd(line: &str) -> (r: Result<Vec<Command>, ParseError>)
    ensures
        r is Ok <==> no_blank_stage(line@),
        r matches Ok(cmds) ==> parses_to(line@, cmds@) && cmds@.len() >= 1,
        r matches Err(e) ==> e == ParseError::BlankCommand,
{
    let cmds = parse_pipe(line);
    let ghost stages = split_on(line@, '|');
    let mut result: Vec<Command> = Vec::new();
    let mut i: usize = 0;
    while i < cmds.len()
        invariant
            i <= cmds@.len(),
            views(cmds@) == stages,
            stages.len() == cmds@.len(),
            stages == split_on(line@, '|'),
            result@.len() == i,
            forall|k: int| 0 <= k < i ==> (#[trigger] result@[k]).is_words(words(stages[k])),
            forall|k: int| 0 <= k < i ==> (#[trigger] words(stages[k])).len() > 0,
        decreases cmds@.len() - i,
    {
        let stage: &str = cmds[i].as_str();
        assert(stage@ == stages[i as int]);
        match parse_cmd_one(stage) {
            Ok(c) => {
                result.push(c);
            },
            Err(e) => {
                assert(words(split_on(line@, '|')[i as int]).len() == 0);
                return Err(e);
            },
        }
        i = i + 1;
    }
    Ok(result)
}

} // verus!
