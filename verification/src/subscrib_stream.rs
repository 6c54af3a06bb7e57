use crate::event_type::EventType;
use crate::text::{
    chars_of, count_dots, dot_free, find_dot, join_dots, lemma_first_dot, lemma_first_dot_is,
    lemma_join_split, lemma_split_at, lemma_split_count, lemma_split_dot_free, lemma_split_join,
    lemma_split_pieces, same_text, split_dots,
};
use vstd::prelude::*;
use vstd::string::StringExecFns;

verus! {

/// Why a channel name or a command was refused.
#[derive(Clone, Copy, Debug, PartialEq, Eq, Structural)]
pub enum ParseError {
    /// The name does not have two or three dot-separated tokens.
    TokenCount,
    /// The first token names no event kind.
    UnknownKind,
    /// The last token names no instrument.
    UnknownSymbol,
    /// The method of a command is neither subscribe nor unsubscribe.
    UnknownMethod,
    /// The text of a command is not a command envelope.
    MalformedCommand,
}

/// A traded instrument.
#[derive(Clone, Copy, Debug, PartialEq, Eq, Structural)]
pub enum Symbol {
    SolUsd,
    SolUsdc,
}

impl Symbol {
    /// The token that names this instrument in a channel name and on the wire.
    pub open spec fn token(self) -> Seq<char> {
        match self {
            Symbol::SolUsd => "SOL_USD"@,
            Symbol::SolUsdc => "SOL_USDC"@,
        }
    }

    /// The instrument that a token names, if it names one.
    pub open spec fn of_token(token: Seq<char>) -> Option<Symbol> {
        if token == "SOL_USD"@ {
            Some(Symbol::SolUsd)
        } else if token == "SOL_USDC"@ {
            Some(Symbol::SolUsdc)
        } else {
            None
        }
    }

    /// The token of this instrument.
    pub fn as_str(&self) -> (name: &'static str)
        ensures
            name@ == self.token(),
    {
        match self {
            Symbol::SolUsd => "SOL_USD",
            Symbol::SolUsdc => "SOL_USDC",
        }
    }

    /// Reads an instrument from its token. Any other text is refused.
    pub fn parse(token: &str) -> (result: Result<Symbol, ParseError>)
        ensures
            result == match Symbol::of_token(token@) {
                Some(symbol) => Ok::<Symbol, ParseError>(symbol),
                None => Err(ParseError::UnknownSymbol),
            },
    {
        if same_text(token, "SOL_USD") {
            Ok(Symbol::SolUsd)
        } else if same_text(token, "SOL_USDC") {
            Ok(Symbol::SolUsdc)
        } else {
            Err(ParseError::UnknownSymbol)
        }
    }

    /// Each instrument is read back from its own token, and no token holds a
    /// dot.
    pub proof fn lemma_tokens(symbol: Symbol)
        ensures
            Symbol::of_token(symbol.token()) == Some(symbol),
            dot_free(symbol.token()),
            symbol.token().len() > 0,
    {
        reveal_strlit("SOL_USD");
        reveal_strlit("SOL_USDC");
        assert("SOL_USD"@.len() == 7 && "SOL_USDC"@.len() == 8);
    }
}

/// What a command asks for.
#[derive(Clone, Copy, Debug, PartialEq, Eq, Structural)]
pub enum Method {
    Subscribe,
    Unsubscribe,
}

impl Method {
    /// The token that names this method on the wire.
    pub open spec fn token(self) -> Seq<char> {
        match self {
            Method::Subscribe => "SUBSCRIBE"@,
            Method::Unsubscribe => "UNSUBSCRIBE"@,
        }
    }

    /// The method that a token names, if it names one.
    pub open spec fn of_token(token: Seq<char>) -> Option<Method> {
        if token == "SUBSCRIBE"@ {
            Some(Method::Subscribe)
        } else if token == "UNSUBSCRIBE"@ {
            Some(Method::Unsubscribe)
        } else {
            None
        }
    }

    /// The token of this method.
    pub fn as_str(&self) -> (name: &'static str)
        ensures
            name@ == self.token(),
    {
        match self {
            Method::Subscribe => "SUBSCRIBE",
            Method::Unsubscribe => "UNSUBSCRIBE",
        }
    }

    /// Reads a method from its token. Any other text is refused.
    pub fn parse(token: &str) -> (result: Result<Method, ParseError>)
        ensures
            result == match Method::of_token(token@) {
                Some(method) => Ok::<Method, ParseError>(method),
                None => Err(ParseError::UnknownMethod),
            },
    {
        if same_text(token, "SUBSCRIBE") {
            Ok(Method::Subscribe)
        } else if same_text(token, "UNSUBSCRIBE") {
            Ok(Method::Unsubscribe)
        } else {
            Err(ParseError::UnknownMethod)
        }
    }

    /// Each method is read back from its own token.
    pub proof fn lemma_tokens(method: Method)
        ensures
            Method::of_token(method.token()) == Some(method),
    {
        reveal_strlit("SUBSCRIBE");
        reveal_strlit("UNSUBSCRIBE");
        assert("SUBSCRIBE"@.len() == 9 && "UNSUBSCRIBE"@.len() == 11);
    }
}

/// The name of one channel: the kind of event, an interval where the kind
/// has one, and the instrument.
#[derive(Debug, PartialEq, Eq)]
pub struct StreamName {
    pub stream: EventType,
    pub interval: Option<String>,
    pub symbol: Symbol,
}

/// A channel name as a mathematical value.
pub struct ChannelId {
    pub stream: EventType,
    pub interval: Option<Seq<char>>,
    pub symbol: Symbol,
}

impl ChannelId {
    /// The canonical text of the name: the tokens with a dot between them.
    pub open spec fn render(self) -> Seq<char> {
        match self.interval {
            Some(interval) => self.stream.token() + seq!['.'] + interval + seq!['.']
                + self.symbol.token(),
            None => self.stream.token() + seq!['.'] + self.symbol.token(),
        }
    }

    /// The interval, where there is one, holds no dot, so that the canonical
    /// text can be read back.
    pub open spec fn well_formed(self) -> bool {
        match self.interval {
            Some(interval) => dot_free(interval),
            None => true,
        }
    }

    /// What reading a channel name gives: the name split at its dots has two
    /// tokens, kind and instrument, or three, with the interval between them.
    pub open spec fn parse(name: Seq<char>) -> Result<ChannelId, ParseError> {
        let tokens = split_dots(name);
        if tokens.len() != 2 && tokens.len() != 3 {
            Err(ParseError::TokenCount)
        } else {
            match EventType::of_token(tokens[0]) {
                None => Err(ParseError::UnknownKind),
                Some(stream) => match Symbol::of_token(tokens.last()) {
                    None => Err(ParseError::UnknownSymbol),
                    Some(symbol) => Ok(
                        ChannelId {
                            stream,
                            interval: if tokens.len() == 3 {
                                Some(tokens[1])
                            } else {
                                None
                            },
                            symbol,
                        },
                    ),
                },
            }
        }
    }
}

impl View for StreamName {
    type V = ChannelId;

    open spec fn view(&self) -> ChannelId {
        ChannelId {
            stream: self.stream,
            interval: match self.interval {
                Some(interval) => Some(interval@),
                None => None,
            },
            symbol: self.symbol,
        }
    }
}

impl Clone for StreamName {
    fn clone(&self) -> (copy: StreamName)
        ensures
            copy == *self,
    {
        StreamName {
            stream: self.stream,
            interval: match &self.interval {
                Some(interval) => Some(interval.clone()),
                None => None,
            },
            symbol: self.symbol,
        }
    }
}

impl Default for StreamName {
    fn default() -> (name: StreamName)
        ensures
            name@ == (ChannelId {
                stream: EventType::BookTicker,
                interval: None,
                symbol: Symbol::SolUsd,
            }),
    {
        StreamName::new()
    }
}

impl StreamName {
    /// The book-ticker channel of the first instrument.
    pub fn new() -> (name: StreamName)
        ensures
            name@ == (ChannelId {
                stream: EventType::BookTicker,
                interval: None,
                symbol: Symbol::SolUsd,
            }),
    {
        StreamName { stream: EventType::BookTicker, interval: None, symbol: Symbol::SolUsd }
    }

    /// Reads a channel name. A name with another number of tokens than two or
    /// three, or with a first or last token that names nothing, is refused.
    pub fn parse(name: &str) -> (result: Result<StreamName, ParseError>)
        ensures
            match result {
                Ok(id) => ChannelId::parse(name@) == Ok::<ChannelId, ParseError>(id@),
                Err(e) => ChannelId::parse(name@) == Err::<ChannelId, ParseError>(e),
            },
    {
        let chars = chars_of(name);
        let n = chars.len();
        let ghost s = name@;
        assert(s.skip(0) =~= s);
        let d1 = find_dot(&chars, 0);
        if d1 == n {
            proof {
                lemma_first_dot(s);
                lemma_split_dot_free(s);
            }
            return Err(ParseError::TokenCount);
        }
        let ghost r1 = s.skip(d1 + 1);
        proof {
            assert(s.take(d1 as int) =~= s.subrange(0, d1 as int));
            lemma_split_at(s, d1 as int);
        }
        let d2 = find_dot(&chars, d1 + 1);
        let interval = if d2 == n {
            proof {
                lemma_first_dot(r1);
                lemma_split_dot_free(r1);
                assert(r1 =~= s.subrange(d1 + 1, n as int));
            }
            None
        } else {
            let ghost r2 = s.skip(d2 + 1);
            proof {
                assert(r1.take(d2 - d1 - 1) =~= s.subrange(d1 + 1, d2 as int));
                assert(r1.skip(d2 - d1) =~= r2);
                lemma_split_at(r1, d2 - d1 - 1);
            }
            let d3 = find_dot(&chars, d2 + 1);
            if d3 != n {
                proof {
                    assert(r2.take(d3 - d2 - 1) =~= s.subrange(d2 + 1, d3 as int));
                    lemma_split_at(r2, d3 - d2 - 1);
                    lemma_split_pieces(r2.skip(d3 - d2));
                }
                return Err(ParseError::TokenCount);
            }
            proof {
                lemma_first_dot(r2);
                lemma_split_dot_free(r2);
                assert(r2 =~= s.subrange(d2 + 1, n as int));
            }
            Some(String::from_str(name.substring_char(d1 + 1, d2)))
        };
        let last = if d2 == n {
            d1 + 1
        } else {
            d2 + 1
        };
        let stream = match EventType::parse(name.substring_char(0, d1)) {
            Ok(stream) => stream,
            Err(e) => {
                return Err(e);
            },
        };
        let symbol = match Symbol::parse(name.substring_char(last, n)) {
            Ok(symbol) => symbol,
            Err(e) => {
                return Err(e);
            },
        };
        Ok(StreamName { stream, interval, symbol })
    }

    /// The canonical text of this name.
    pub fn to_string(&self) -> (name: String)
        ensures
            name@ == self@.render(),
    {
        proof {
            reveal_strlit(".");
        }
        let mut name = String::from_str(self.stream.as_str());
        name.append(".");
        match &self.interval {
            Some(interval) => {
                name.append(interval.as_str());
                name.append(".");
            },
            None => {},
        }
        name.append(self.symbol.as_str());
        assert("."@ =~= seq!['.']);
        name
    }

    /// Whether two names are the same channel.
    pub fn same_channel(&self, other: &StreamName) -> (same: bool)
        ensures
            same == (self@ == other@),
    {
        let intervals = match (&self.interval, &other.interval) {
            (Some(a), Some(b)) => *a == *b,
            (None, None) => true,
            _ => false,
        };
        self.stream == other.stream && self.symbol == other.symbol && intervals
    }
}

/// A command of a client: what to do, and for which channels.
#[derive(Debug, PartialEq, Eq)]
pub struct SubscribStream {
    pub method: Method,
    pub params: Vec<StreamName>,
}

/// A command as a mathematical value.
#[verifier::ext_equal]
pub struct Command {
    pub method: Method,
    pub params: Seq<ChannelId>,
}

/// The names as mathematical values, in their order.
pub open spec fn names_of(params: Seq<StreamName>) -> Seq<ChannelId> {
    params.map_values(|name: StreamName| name@)
}

/// The texts as sequences of characters, in their order.
pub open spec fn texts_of(params: Seq<String>) -> Seq<Seq<char>> {
    params.map_values(|text: String| text@)
}

impl View for SubscribStream {
    type V = Command;

    open spec fn view(&self) -> Command {
        Command { method: self.method, params: names_of(self.params@) }
    }
}

impl Command {
    /// What reading a list of channel names gives: the names, if each of them
    /// can be read, else the error of the first that cannot.
    pub open spec fn parse_names(names: Seq<Seq<char>>) -> Result<Seq<ChannelId>, ParseError>
        decreases names.len(),
    {
        if names.len() == 0 {
            Ok(Seq::empty())
        } else {
            match Command::parse_names(names.drop_last()) {
                Err(e) => Err(e),
                Ok(front) => match ChannelId::parse(names.last()) {
                    Err(e) => Err(e),
                    Ok(id) => Ok(front.push(id)),
                },
            }
        }
    }

    /// What reading a command gives: the method is read first, then the
    /// names in order, and the first that cannot be read refuses the whole
    /// command.
    pub open spec fn parse(method: Seq<char>, params: Seq<Seq<char>>) -> Result<
        Command,
        ParseError,
    > {
        match Method::of_token(method) {
            None => Err(ParseError::UnknownMethod),
            Some(method) => match Command::parse_names(params) {
                Err(e) => Err(e),
                Ok(params) => Ok(Command { method, params }),
            },
        }
    }

    /// The canonical texts of the names of the command, in their order.
    pub open spec fn param_texts(self) -> Seq<Seq<char>> {
        self.params.map_values(|id: ChannelId| id.render())
    }
}

impl SubscribStream {
    /// Reads a command from the method and the channel names of its
    /// envelope. An unknown method or a name that cannot be read refuses the
    /// command.
    pub fn parse(method: &str, params: &Vec<String>) -> (result: Result<
        SubscribStream,
        ParseError,
    >)
        ensures
            match result {
                Ok(command) => Command::parse(method@, texts_of(params@)) == Ok::<
                    Command,
                    ParseError,
                >(command@),
                Err(e) => Command::parse(method@, texts_of(params@)) == Err::<
                    Command,
                    ParseError,
                >(e),
            },
    {
        let verb = match Method::parse(method) {
            Ok(verb) => verb,
            Err(e) => {
                return Err(e);
            },
        };
        let ghost texts = texts_of(params@);
        let mut names: Vec<StreamName> = Vec::new();
        let mut i: usize = 0;
        proof {
            assert(texts.take(0) =~= Seq::<Seq<char>>::empty());
            assert(names_of(names@) =~= Seq::<ChannelId>::empty());
        }
        while i < params.len()
            invariant
                i <= params.len(),
                texts == texts_of(params@),
                Method::of_token(method@) == Some(verb),
                Command::parse_names(texts.take(i as int)) == Ok::<Seq<ChannelId>, ParseError>(
                    names_of(names@),
                ),
            decreases params.len() - i,
        {
            proof {
                assert(texts.take(i + 1).drop_last() =~= texts.take(i as int));
                assert(texts.take(i + 1).last() == params@[i as int]@);
            }
            match StreamName::parse(params[i].as_str()) {
                Ok(name) => {
                    let ghost before = names_of(names@);
                    names.push(name);
                    assert(names_of(names@) =~= before.push(name@));
                },
                Err(e) => {
                    proof {
                        lemma_parse_names_prefix(texts, i + 1);
                    }
                    return Err(e);
                },
            }
            i += 1;
        }
        assert(texts.take(params.len() as int) =~= texts);
        Ok(SubscribStream { method: verb, params: names })
    }

    /// The canonical texts of the channel names of the command, in their
    /// order, as they stand in its envelope.
    pub fn param_texts(&self) -> (texts: Vec<String>)
        ensures
            texts_of(texts@) == self@.param_texts(),
    {
        let mut texts: Vec<String> = Vec::new();
        let mut i: usize = 0;
        while i < self.params.len()
            invariant
                i <= self.params.len(),
                texts@.len() == i,
                forall|j: int| 0 <= j < i ==> (#[trigger] texts@[j])@ == self.params@[j]@.render(),
            decreases self.params.len() - i,
        {
            texts.push(self.params[i].to_string());
            i += 1;
        }
        assert(texts_of(texts@) =~= self@.param_texts());
        texts
    }
}

/// A list of names whose first `n` cannot all be read cannot be read, and
/// fails with the same error as those `n`.
pub proof fn lemma_parse_names_prefix(names: Seq<Seq<char>>, n: int)
    requires
        0 <= n <= names.len(),
        Command::parse_names(names.take(n)) is Err,
    ensures
        Command::parse_names(names) == Command::parse_names(names.take(n)),
    decreases names.len(),
{
    if n < names.len() {
        let front = names.drop_last();
        assert(front.take(n) =~= names.take(n));
        lemma_parse_names_prefix(front, n);
    } else {
        assert(names.take(n) =~= names);
    }
}

/// A command is read back from its method token and the canonical texts of
/// its names, where every name is well formed.
pub proof fn lemma_command_round_trip(command: Command)
    requires
        forall|i: int| 0 <= i < command.params.len() ==> (#[trigger] command.params[i]).well_formed(),
    ensures
        Command::parse(command.method.token(), command.param_texts()) == Ok::<
            Command,
            ParseError,
        >(command),
    decreases command.params.len(),
{
    Method::lemma_tokens(command.method);
    lemma_names_round_trip(command.params);
}

/// Well-formed names are read back from their canonical texts.
pub proof fn lemma_names_round_trip(ids: Seq<ChannelId>)
    requires
        forall|i: int| 0 <= i < ids.len() ==> (#[trigger] ids[i]).well_formed(),
    ensures
        Command::parse_names(ids.map_values(|id: ChannelId| id.render())) == Ok::<
            Seq<ChannelId>,
            ParseError,
        >(ids),
    decreases ids.len(),
{
    let texts = ids.map_values(|id: ChannelId| id.render());
    if ids.len() == 0 {
        assert(ids =~= Seq::empty());
    } else {
        let front = ids.drop_last();
        assert forall|i: int| 0 <= i < front.len() implies (#[trigger] front[i]).well_formed() by {
            assert(front[i] == ids[i]);
        }
        lemma_names_round_trip(front);
        assert(texts.drop_last() =~= front.map_values(|id: ChannelId| id.render()));
        assert(ids[ids.len() - 1].well_formed());
        lemma_parse_of_rendered(ids.last());
        assert(front.push(ids.last()) =~= ids);
    }
}

/// The canonical text of a name that was read is the text it was read from,
/// and the name is well formed.
pub proof fn lemma_render_of_parsed(name: Seq<char>)
    ensures
        ChannelId::parse(name) matches Ok(id) ==> id.render() == name && id.well_formed(),
{
    if let Ok(id) = ChannelId::parse(name) {
        let tokens = split_dots(name);
        lemma_join_split(name);
        lemma_split_pieces(name);
        reveal_with_fuel(join_dots, 3);
        assert(tokens[0] == id.stream.token());
        assert(tokens.last() == id.symbol.token());
        if tokens.len() == 2 {
            assert(tokens.drop_first() =~= seq![tokens[1]]);
        } else {
            assert(tokens.drop_first().drop_first() =~= seq![tokens[2]]);
            assert(tokens.drop_first()[0] == tokens[1]);
            assert(join_dots(tokens.drop_first()) == tokens[1] + seq!['.'] + tokens[2]);
            assert(id.render() =~= tokens[0] + seq!['.'] + (tokens[1] + seq!['.'] + tokens[2]));
        }
    }
}

/// A well-formed name is read back from its canonical text.
pub proof fn lemma_parse_of_rendered(id: ChannelId)
    requires
        id.well_formed(),
    ensures
        ChannelId::parse(id.render()) == Ok::<ChannelId, ParseError>(id),
{
    EventType::lemma_tokens(id.stream);
    Symbol::lemma_tokens(id.symbol);
    reveal_with_fuel(join_dots, 3);
    match id.interval {
        Some(interval) => {
            let pieces = seq![id.stream.token(), interval, id.symbol.token()];
            assert(pieces.drop_first() =~= seq![interval, id.symbol.token()]);
            assert(pieces.drop_first().drop_first() =~= seq![id.symbol.token()]);
            assert(join_dots(pieces) =~= id.render());
            lemma_split_join(pieces);
        },
        None => {
            let pieces = seq![id.stream.token(), id.symbol.token()];
            assert(pieces.drop_first() =~= seq![id.symbol.token()]);
            assert(join_dots(pieces) =~= id.render());
            lemma_split_join(pieces);
        },
    }
}

/// A text is read as a channel name exactly when it is the canonical text of
/// a well-formed name: nothing else is ever given a name.
pub proof fn lemma_parse_accepts_canonical_only(name: Seq<char>)
    ensures
        ChannelId::parse(name) is Ok <==> exists|id: ChannelId|
            id.well_formed() && #[trigger] id.render() == name,
{
    lemma_render_of_parsed(name);
    if let Ok(id) = ChannelId::parse(name) {
        assert(id.well_formed() && id.render() == name);
    }
    if exists|id: ChannelId| id.well_formed() && #[trigger] id.render() == name {
        let id = choose|id: ChannelId| id.well_formed() && #[trigger] id.render() == name;
        lemma_parse_of_rendered(id);
    }
}

/// The malformed names are refused: the empty text, a text without a dot or
/// with three dots or more, and a text whose first token names no kind or
/// whose last token names no instrument.
pub proof fn lemma_parse_rejects_malformed(name: Seq<char>)
    ensures
        name.len() == 0 ==> ChannelId::parse(name) == Err::<ChannelId, ParseError>(
            ParseError::TokenCount,
        ),
        count_dots(name) != 1 && count_dots(name) != 2 <==> ChannelId::parse(name) == Err::<
            ChannelId,
            ParseError,
        >(ParseError::TokenCount),
        EventType::of_token(split_dots(name)[0]) is None ==> ChannelId::parse(name) is Err,
        Symbol::of_token(split_dots(name).last()) is None ==> ChannelId::parse(name) is Err,
{
    lemma_split_count(name);
    if name.len() == 0 {
        assert(count_dots(name) == 0);
    }
}

/// Two names with the same canonical text are the same name, whatever their
/// intervals hold.
pub proof fn lemma_render_injective(a: ChannelId, b: ChannelId)
    requires
        a.render() == b.render(),
    ensures
        a == b,
{
    let text = a.render();
    let ka = a.stream.token();
    let kb = b.stream.token();
    let sa = a.symbol.token();
    let sb = b.symbol.token();
    EventType::lemma_tokens(a.stream);
    EventType::lemma_tokens(b.stream);
    Symbol::lemma_tokens(a.symbol);
    Symbol::lemma_tokens(b.symbol);
    let rest_a = match a.interval {
        Some(interval) => interval + seq!['.'] + sa,
        None => sa,
    };
    let rest_b = match b.interval {
        Some(interval) => interval + seq!['.'] + sb,
        None => sb,
    };
    assert(text =~= ka + seq!['.'] + rest_a);
    assert(text =~= kb + seq!['.'] + rest_b);
    assert(text.take(ka.len() as int) =~= ka);
    assert(text.take(kb.len() as int) =~= kb);
    lemma_first_dot_is(text, ka.len() as int);
    lemma_first_dot_is(text, kb.len() as int);
    assert(a.stream == b.stream);
    assert(text.skip(ka.len() as int + 1) =~= rest_a);
    assert(text.skip(kb.len() as int + 1) =~= rest_b);
    assert(rest_a == rest_b);
    reveal_strlit("SOL_USD");
    reveal_strlit("SOL_USDC");
    assert(rest_a.last() == sa.last());
    assert(rest_b.last() == sb.last());
    assert(a.symbol == b.symbol);
    match (a.interval, b.interval) {
        (Some(ia), Some(ib)) => {
            assert(ia.len() == ib.len());
            assert(rest_a.take(ia.len() as int) =~= ia);
            assert(rest_b.take(ib.len() as int) =~= ib);
        },
        (Some(ia), None) => {
            assert(rest_a.len() == ia.len() + 1 + sa.len());
        },
        (None, Some(ib)) => {
            assert(rest_b.len() == ib.len() + 1 + sb.len());
        },
        (None, None) => {},
    }
}

} // verus!
