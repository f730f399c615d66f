use vstd::prelude::*;

verus! {

/// Why a line is not an IRC message.
#[derive(Debug, Clone, Copy, PartialEq, Eq, Structural)]
pub enum GrammarError {
    /// The line is empty.
    Empty,
    /// The line opens with `:` but no non-empty prefix ended by a space follows.
    InvalidPrefix,
    /// No command stands where the command should be.
    MissingCommand,
}

/// How a grammar error reads to a person.
pub open spec fn grammar_error_text(e: GrammarError) -> Seq<char> {
    match e {
        GrammarError::Empty => "IRC message may not be empty"@,
        GrammarError::InvalidPrefix => "Found prefix indication, followed by invalid prefix"@,
        GrammarError::MissingCommand => "IRC message lacks a command"@,
    }
}

impl GrammarError {
    /// Describes the error for a person.
    pub fn message(&self) -> (r: &'static str)
        ensures
            r@ == grammar_error_text(*self),
    {
        match self {
            GrammarError::Empty => "IRC message may not be empty",
            GrammarError::InvalidPrefix => "Found prefix indication, followed by invalid prefix",
            GrammarError::MissingCommand => "IRC message lacks a command",
        }
    }
}

/// The first position at or after `from` that holds `c`.
pub open spec fn find_from(s: Seq<char>, c: char, from: int) -> Option<int>
    decreases s.len() - from,
{
    if from < 0 || from >= s.len() {
        None
    } else if s[from] == c {
        Some(from)
    } else {
        find_from(s, c, from + 1)
    }
}

/// The first position at or after `from` where a space is followed by a colon:
/// the mark that introduces the trailing parameter.
pub open spec fn find_marker_from(s: Seq<char>, from: int) -> Option<int>
    decreases s.len() - from,
{
    if from < 0 || from + 1 >= s.len() {
        None
    } else if s[from] == ' ' && s[from + 1] == ':' {
        Some(from)
    } else {
        find_marker_from(s, from + 1)
    }
}

/// `s` cut at every space, empty pieces kept: `"a  b"` gives `["a", "", "b"]`,
/// and the empty text gives one empty piece.
pub open spec fn split_spaces(s: Seq<char>) -> Seq<Seq<char>>
    decreases s.len(),
{
    if s.len() == 0 {
        seq![Seq::empty()]
    } else {
        let init = split_spaces(s.drop_last());
        if s.last() == ' ' {
            init.push(Seq::empty())
        } else {
            init.update(init.len() - 1, init.last().push(s.last()))
        }
    }
}

/// The texts that a sequence of strings holds.
pub open spec fn views(v: Seq<String>) -> Seq<Seq<char>> {
    v.map_values(|t: String| t@)
}

/// A message as the grammar sees it.
pub struct MessageView {
    pub prefix: Option<Seq<char>>,
    pub command: Seq<char>,
    pub parameters: Seq<Seq<char>>,
}

/// The message that the line `s` (without its line end) holds, or why it holds none.
pub open spec fn parse_line(s: Seq<char>) -> Result<MessageView, GrammarError> {
    if s.len() == 0 {
        Err(GrammarError::Empty)
    } else if s[0] == ':' {
        match find_from(s, ' ', 1) {
            Some(p) => if p == 1 {
                Err(GrammarError::InvalidPrefix)
            } else {
                parse_after_prefix(s, Some(s.subrange(1, p)), p + 1)
            },
            None => Err(GrammarError::InvalidPrefix),
        }
    } else {
        parse_after_prefix(s, None, 0)
    }
}

/// The command of `s`, which begins at `start`, and the parameters after it.
pub open spec fn parse_after_prefix(s: Seq<char>, prefix: Option<Seq<char>>, start: int) -> Result<
    MessageView,
    GrammarError,
> {
    let end = match find_from(s, ' ', start) {
        Some(i) => i,
        None => s.len() as int,
    };
    if end <= start {
        Err(GrammarError::MissingCommand)
    } else {
        Ok(
            MessageView {
                prefix,
                command: s.subrange(start, end),
                parameters: parameters_after(s, end),
            },
        )
    }
}

/// The parameters of `s`, whose command ends at `end`. The text after the space
/// that ends the command is cut at each space, up to the first space that a colon
/// follows; all after that colon is one last parameter. With no such mark, all
/// that text is cut, and none at all gives no parameter.
pub open spec fn parameters_after(s: Seq<char>, end: int) -> Seq<Seq<char>> {
    match find_marker_from(s, end) {
        Some(k) => if k == end {
            seq![s.subrange(k + 2, s.len() as int)]
        } else {
            split_spaces(s.subrange(end + 1, k)).push(s.subrange(k + 2, s.len() as int))
        },
        None => if s.len() <= end + 1 {
            Seq::empty()
        } else {
            split_spaces(s.subrange(end + 1, s.len() as int))
        },
    }
}

/// Each text followed by one space.
pub open spec fn spaced(texts: Seq<Seq<char>>) -> Seq<char>
    decreases texts.len(),
{
    if texts.len() == 0 {
        Seq::empty()
    } else {
        spaced(texts.drop_last()) + texts.last() + seq![' ']
    }
}

/// The opening of the line for a message with this prefix: `:`, the prefix and a
/// space, or nothing.
pub open spec fn prefix_text(prefix: Option<Seq<char>>) -> Seq<char> {
    match prefix {
        Some(p) => seq![':'] + p + seq![' '],
        None => Seq::empty(),
    }
}

/// How `m` is written on a line, without the line end. The parameters follow
/// the command, each after a space, and the last one always after `" :"`.
pub open spec fn message_text(m: MessageView) -> Seq<char> {
    if m.parameters.len() == 0 {
        prefix_text(m.prefix) + m.command
    } else {
        prefix_text(m.prefix) + m.command + seq![' '] + spaced(m.parameters.drop_last()) + seq![':']
            + m.parameters.last()
    }
}

/// How `m` is sent: its text, then carriage return and line feed.
pub open spec fn serialize(m: MessageView) -> Seq<char> {
    message_text(m) + seq!['\r', '\n']
}

/// One IRC message: an optional prefix, a command and its parameters.
#[derive(Debug, PartialEq, Eq)]
pub struct IrcMessage {
    pub prefix: Option<String>,
    pub command: String,
    pub command_parameters: Vec<String>,
}

impl View for IrcMessage {
    type V = MessageView;

    open spec fn view(&self) -> MessageView {
        MessageView {
            prefix: match self.prefix {
                Some(p) => Some(p@),
                None => None,
            },
            command: self.command@,
            parameters: views(self.command_parameters@),
        }
    }
}

impl IrcMessage {
    /// Reads one line, without its line end, as a message.
    pub fn parse(line: &str) -> (r: Result<IrcMessage, GrammarError>)
        ensures
            match r {
                Ok(m) => parse_line(line@) == Ok::<MessageView, GrammarError>(m@),
                Err(e) => parse_line(line@) == Err::<MessageView, GrammarError>(e),
            },
    {
        let chars = chars_of(line);
        let n = chars.len();
        if n == 0 {
            return Err(GrammarError::Empty);
        }
        let mut prefix: Option<String> = None;
        let mut start: usize = 0;
        if chars[0] == ':' {
            match find_char(&chars, ' ', 1) {
                Some(p) => {
                    if p == 1 {
                        return Err(GrammarError::InvalidPrefix);
                    }
                    prefix = Some(line.substring_char(1, p).to_owned());
                    start = p + 1;
                },
                None => {
                    return Err(GrammarError::InvalidPrefix);
                },
            }
        }
        let end = match find_char(&chars, ' ', start) {
            Some(i) => i,
            None => n,
        };
        if end == start {
            return Err(GrammarError::MissingCommand);
        }
        let command = line.substring_char(start, end).to_owned();
        let command_parameters = parameters_of(line, &chars, end);
        Ok(IrcMessage { prefix, command, command_parameters })
    }

    /// Writes the message as one line, line end included. The last parameter
    /// always gets a colon, whatever it holds.
    pub fn to_line(self) -> (r: String)
        ensures
            r@ == serialize(self@),
    {
        proof {
            reveal_strlit(":");
            reveal_strlit(" ");
            reveal_strlit("\r\n");
        }
        let ghost m = self@;
        let mut message = String::new();
        if let Some(p) = &self.prefix {
            message.append(":");
            message.append(p.as_str());
            message.append(" ");
        }
        assert(message@ =~= prefix_text(m.prefix));
        message.append(self.command.as_str());
        let n = self.command_parameters.len();
        if n > 0 {
            message.append(" ");
            let mut i: usize = 0;
            assert(m.parameters.subrange(0, 0) =~= Seq::<Seq<char>>::empty());
            while i < n - 1
                invariant
                    n == self.command_parameters.len(),
                    m == self@,
                    0 < n,
                    i <= n - 1,
                    message@ =~= prefix_text(m.prefix) + m.command + seq![' '] + spaced(
                        m.parameters.subrange(0, i as int),
                    ),
                decreases n - 1 - i,
            {
                proof {
                    reveal_strlit(" ");
                }
                message.append(self.command_parameters[i].as_str());
                message.append(" ");
                let ghost done = m.parameters.subrange(0, (i + 1) as int);
                assert(done.drop_last() =~= m.parameters.subrange(0, i as int));
                assert(spaced(done) == spaced(m.parameters.subrange(0, i as int)) + m.parameters[i as int]
                    + seq![' ']);
                i = i + 1;
            }
            assert(m.parameters.drop_last() =~= m.parameters.subrange(0, (n - 1) as int));
            message.append(":");
            message.append(self.command_parameters[n - 1].as_str());
        }
        message.append("\r\n");
        message
    }
}

/// The parameters of `line`, whose command ends at `end`.
fn parameters_of(line: &str, chars: &Vec<char>, end: usize) -> (r: Vec<String>)
    requires
        chars@ == line@,
        end <= chars.len(),
    ensures
        views(r@) == parameters_after(chars@, end as int),
{
    let n = chars.len();
    match find_marker(chars, end) {
        Some(k) => {
            let mut r = if k == end {
                Vec::new()
            } else {
                split_range(line, chars, end + 1, k)
            };
            let ghost before = r@;
            r.push(line.substring_char(k + 2, n).to_owned());
            assert(views(r@) =~= views(before).push(chars@.subrange(k + 2, n as int)));
            r
        },
        None => {
            if n - end <= 1 {
                let r = Vec::new();
                assert(views(r@) =~= Seq::empty());
                r
            } else {
                split_range(line, chars, end + 1, n)
            }
        },
    }
}

/// The pieces of `line` between `from` and `to`, cut at each space.
fn split_range(line: &str, chars: &Vec<char>, from: usize, to: usize) -> (r: Vec<String>)
    requires
        chars@ == line@,
        from <= to <= chars.len(),
    ensures
        views(r@) == split_spaces(chars@.subrange(from as int, to as int)),
{
    let mut pieces: Vec<String> = Vec::new();
    let mut start: usize = from;
    let mut i: usize = from;
    assert(views(pieces@) =~= Seq::empty());
    assert(chars@.subrange(from as int, from as int) =~= Seq::empty());
    assert(views(pieces@).push(chars@.subrange(from as int, from as int)) =~= seq![Seq::empty()]);
    while i < to
        invariant
            chars@ == line@,
            from <= start <= i <= to <= chars.len(),
            split_spaces(chars@.subrange(from as int, i as int)) == views(pieces@).push(
                chars@.subrange(start as int, i as int),
            ),
        decreases to - i,
    {
        let ghost done = chars@.subrange(from as int, (i + 1) as int);
        let ghost cut = split_spaces(chars@.subrange(from as int, i as int));
        assert(done.drop_last() =~= chars@.subrange(from as int, i as int));
        assert(done.last() == chars@[i as int]);
        let ghost before = pieces@;
        if chars[i] == ' ' {
            let piece = line.substring_char(start, i).to_owned();
            assert(piece@ == chars@.subrange(start as int, i as int));
            pieces.push(piece);
            assert(views(pieces@) =~= views(before).push(chars@.subrange(start as int, i as int)));
            start = i + 1;
            assert(split_spaces(done) == cut.push(Seq::empty()));
            assert(chars@.subrange(start as int, (i + 1) as int) =~= Seq::<char>::empty());
        } else {
            assert(split_spaces(done) == cut.update(cut.len() - 1, cut.last().push(chars@[i as int])));
            assert(chars@.subrange(start as int, (i + 1) as int) =~= chars@.subrange(
                start as int,
                i as int,
            ).push(chars@[i as int]));
            assert(split_spaces(done) =~= views(pieces@).push(
                chars@.subrange(start as int, (i + 1) as int),
            ));
        }
        i = i + 1;
    }
    let ghost before = pieces@;
    pieces.push(line.substring_char(start, to).to_owned());
    assert(views(pieces@) =~= views(before).push(chars@.subrange(start as int, to as int)));
    pieces
}

/// Scans `chars` for `c`, starting at `from`.
fn find_char(chars: &Vec<char>, c: char, from: usize) -> (r: Option<usize>)
    requires
        from <= chars.len(),
    ensures
        match r {
            Some(i) => from <= i < chars.len() && find_from(chars@, c, from as int) == Some(i as int),
            None => find_from(chars@, c, from as int) is None,
        },
{
    let mut i: usize = from;
    while i < chars.len()
        invariant
            from <= i <= chars.len(),
            find_from(chars@, c, from as int) == find_from(chars@, c, i as int),
        decreases chars.len() - i,
    {
        if chars[i] == c {
            return Some(i);
        }
        i = i + 1;
    }
    None
}

/// Scans `chars` for a space followed by a colon, starting at `from`.
fn find_marker(chars: &Vec<char>, from: usize) -> (r: Option<usize>)
    requires
        from <= chars.len(),
    ensures
        match r {
            Some(i) => from <= i && i + 1 < chars.len() && find_marker_from(chars@, from as int)
                == Some(i as int),
            None => find_marker_from(chars@, from as int) is None,
        },
{
    let mut i: usize = from;
    while chars.len() - i > 1
        invariant
            from <= i <= chars.len(),
            find_marker_from(chars@, from as int) == find_marker_from(chars@, i as int),
        decreases chars.len() - i,
    {
        if chars[i] == ' ' && chars[i + 1] == ':' {
            return Some(i);
        }
        i = i + 1;
    }
    None
}

/// The characters of `s`, one by one.
fn chars_of(s: &str) -> (r: Vec<char>)
    ensures
        r@ == s@,
{
    let mut r: Vec<char> = Vec::new();
    for c in it: s.chars()
        invariant
            r@ == it.seq().subrange(0, it.index() as int),
    {
        r.push(c);
    }
    r
}

} // verus!
