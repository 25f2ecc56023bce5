//! The grammar engine: reads a line of tokens, left to right, and produces
//! the program's name and its arguments in the order of the tokens.

use crate::args::ArgContainer;
use crate::command::Command;
use crate::environment::{interpolated, Environment};
use crate::opt_arg::{resolve, text_of, ItemCursor, OptionalArgExtension, OptionalShape};
use vstd::prelude::*;

verus! {

/// A value captured for a group: what the group interpolates.
#[derive(Debug)]
pub enum Value<'a> {
    /// Exactly one value.
    Single(&'a str),
    /// A value that may be absent.
    Optional(Option<&'a str>),
    /// Any number of values, in order.
    List(Vec<&'a str>),
}

/// The marker behind the value of a group. A group has at most one.
#[derive(Clone, Copy, Debug, PartialEq, Eq, Structural)]
pub enum Marker {
    /// No marker: the value itself.
    Bare,
    /// `?`: the value only if there is one.
    Optional,
    /// `..`: each item of the value.
    Spread,
}

/// A parenthesised group: a value, the marker behind it, and in front of it
/// possibly a flag, which is a token of its own.
#[derive(Debug)]
pub struct Group<'a> {
    pub flag: Option<Box<Token<'a>>>,
    pub value: Value<'a>,
    pub marker: Marker,
}

/// One unit of a line.
#[derive(Debug)]
pub enum Token<'a> {
    /// A bare word. It stands for its own spelling.
    Word(&'a str),
    /// A quoted string. It stands for its text, spaces included.
    QuotedLiteral(&'a str),
    /// The environment variable of the given name.
    EnvRef(&'a str),
    /// A parenthesised group.
    Group(Group<'a>),
}

/// The rule by which a token produces arguments.
#[derive(Clone, Copy, Debug, PartialEq, Eq, Structural)]
pub enum Rule {
    /// The value of an environment variable, as one argument.
    EnvLookup,
    /// A flag and a value, both or neither.
    FlaggedOptional,
    /// A value, if there is one.
    PlainOptional,
    /// Each item of a value, as an argument of its own.
    Spread,
    /// The value of a group, as one argument.
    Expression,
    /// The token's own text, as one argument.
    Literal,
}

impl<'a> Value<'a> {
    /// The value read as a sequence of items.
    pub open spec fn items(&self) -> Seq<Seq<char>> {
        match self {
            Value::Single(s) => seq![s@],
            Value::Optional(Some(s)) => seq![s@],
            Value::Optional(None) => Seq::empty(),
            Value::List(v) => v.deep_view(),
        }
    }
}

/// The rule that applies to a token: the first that matches, in the order
/// environment variable, flagged `?`, plain `?`, `..`, bare group, literal.
pub open spec fn rule_of(token: Token) -> Rule {
    match token {
        Token::EnvRef(_) => Rule::EnvLookup,
        Token::Group(g) => if g.marker is Optional && g.flag is Some {
            Rule::FlaggedOptional
        } else if g.marker is Optional {
            Rule::PlainOptional
        } else if g.marker is Spread {
            Rule::Spread
        } else {
            Rule::Expression
        },
        Token::Word(_) | Token::QuotedLiteral(_) => Rule::Literal,
    }
}

/// Whether a token stands for exactly one text: a word, a quoted string, an
/// environment variable, or a group of one value without flag or marker.
pub open spec fn is_single(token: Token) -> bool {
    match token {
        Token::Group(g) => g.flag is None && g.marker is Bare && g.value is Single,
        _ => true,
    }
}

/// Whether a token is one that the grammar has a reading for:
/// - a bare group holds one value and no flag;
/// - a `..` group holds a value that has items, and no flag;
/// - a `?` group without flag holds a value that may be absent;
/// - a `?` group with a flag holds a value that may be absent or a list, and
///   its flag stands for exactly one text.
pub open spec fn well_formed(token: Token) -> bool {
    match token {
        Token::Group(g) => match g.marker {
            Marker::Bare => g.flag is None && g.value is Single,
            Marker::Spread => g.flag is None && !(g.value is Single),
            Marker::Optional => match g.flag {
                Some(flag) => is_single(*flag) && !(g.value is Single),
                None => g.value is Optional,
            },
        },
        _ => true,
    }
}

/// Whether a line can be built: it starts with a token for the program's
/// name, which stands for exactly one text, and every token behind it is
/// well formed.
pub open spec fn well_formed_line(tokens: Seq<Token>) -> bool {
    &&& tokens.len() > 0
    &&& is_single(tokens[0])
    &&& forall|i: int| 1 <= i < tokens.len() ==> well_formed(#[trigger] tokens[i])
}

/// The one text that a single token stands for. A variable that the
/// environment does not hold stands for the empty text.
pub open spec fn single_text(token: Token, env: Map<Seq<char>, Seq<char>>) -> Seq<char> {
    match token {
        Token::Word(s) => s@,
        Token::QuotedLiteral(s) => s@,
        Token::EnvRef(name) => interpolated(env, name@),
        Token::Group(g) => match g.value {
            Value::Single(s) => s@,
            _ => Seq::empty(),
        },
    }
}

/// The shape that a `?` group hands to the resolver.
pub open spec fn shape_of(group: Group, env: Map<Seq<char>, Seq<char>>) -> OptionalShape {
    match group.flag {
        Some(flag) => match group.value {
            Value::List(items) => OptionalShape::FlaggedList(
                single_text(*flag, env),
                items.deep_view(),
            ),
            Value::Optional(value) => OptionalShape::Flagged(
                single_text(*flag, env),
                text_of(value),
            ),
            Value::Single(value) => OptionalShape::Flagged(single_text(*flag, env), Some(value@)),
        },
        None => match group.value {
            Value::Optional(value) => OptionalShape::Plain(text_of(value)),
            Value::Single(value) => OptionalShape::Plain(Some(value@)),
            Value::List(_) => OptionalShape::Plain(None),
        },
    }
}

/// The arguments that one token produces, in order.
pub open spec fn token_args(token: Token, env: Map<Seq<char>, Seq<char>>) -> Seq<Seq<char>> {
    match token {
        Token::Group(g) => match rule_of(token) {
            Rule::FlaggedOptional | Rule::PlainOptional => resolve(shape_of(g, env)),
            Rule::Spread => g.value.items(),
            _ => seq![single_text(token, env)],
        },
        _ => seq![single_text(token, env)],
    }
}

/// The arguments that a run of tokens produces: those of each token, in the
/// order of the tokens.
pub open spec fn line_args(tokens: Seq<Token>, env: Map<Seq<char>, Seq<char>>) -> Seq<
    Seq<char>,
>
    decreases tokens.len(),
{
    if tokens.len() == 0 {
        Seq::empty()
    } else {
        line_args(tokens.drop_last(), env) + token_args(tokens.last(), env)
    }
}

/// The arguments of a line are those of its front part followed by those
/// of its back part: no token's arguments move, and none are lost or added.
pub proof fn lemma_line_args_concat(
    front: Seq<Token>,
    back: Seq<Token>,
    env: Map<Seq<char>, Seq<char>>,
)
    ensures
        line_args(front + back, env) == line_args(front, env) + line_args(back, env),
    decreases back.len(),
{
    if back.len() == 0 {
        assert(front + back =~= front);
        assert(line_args(front, env) + line_args(back, env) =~= line_args(front, env));
    } else {
        lemma_line_args_concat(front, back.drop_last(), env);
        assert((front + back).drop_last() =~= front + back.drop_last());
        assert((front + back).last() == back.last());
        assert(line_args(front + back, env) =~= line_args(front, env) + line_args(back, env));
    }
}

/// A token that stands for one text produces that text as its one
/// argument, whatever the text is.
pub proof fn lemma_single_token_one_argument(token: Token, env: Map<Seq<char>, Seq<char>>)
    requires
        is_single(token),
    ensures
        well_formed(token),
        token_args(token, env) == seq![single_text(token, env)],
{
}

/// A variable that was set to a value interpolates to that value, as one
/// argument.
pub proof fn lemma_env_ref_set(name: &str, value: Seq<char>, env: Map<Seq<char>, Seq<char>>)
    ensures
        token_args(Token::EnvRef(name), env.insert(name@, value)) == seq![value],
{
}

/// A variable that is not set interpolates to the empty text, which still
/// is one argument.
pub proof fn lemma_env_ref_unset(name: &str, env: Map<Seq<char>, Seq<char>>)
    requires
        !env.contains_key(name@),
    ensures
        token_args(Token::EnvRef(name), env) == seq![Seq::<char>::empty()],
        token_args(Token::EnvRef(name), env).len() == 1,
{
}

/// A `..` group produces the items of its value, each as an argument of its
/// own, in their order.
pub proof fn lemma_spread_produces_items(group: Group, env: Map<Seq<char>, Seq<char>>)
    requires
        group.marker is Spread,
    ensures
        token_args(Token::Group(group), env) == group.value.items(),
        group.value matches Value::List(items) ==> token_args(Token::Group(group), env)
            == items.deep_view(),
{
}

/// A `..` group whose value has no items leaves the arguments around it as
/// they are.
pub proof fn lemma_empty_spread_leaves_order(
    before: Seq<Token>,
    group: Group,
    after: Seq<Token>,
    env: Map<Seq<char>, Seq<char>>,
)
    requires
        group.marker is Spread,
        group.value.items().len() == 0,
    ensures
        line_args(before.push(Token::Group(group)) + after, env) == line_args(before, env)
            + line_args(after, env),
{
    let with_group = before.push(Token::Group(group));
    lemma_line_args_concat(with_group, after, env);
    assert(with_group.drop_last() =~= before);
    assert(line_args(with_group, env) =~= line_args(before, env));
}

/// Finds the rule that applies to a token.
pub fn classify(token: &Token) -> (rule: Rule)
    ensures
        rule == rule_of(*token),
{
    match token {
        Token::EnvRef(_) => Rule::EnvLookup,
        Token::Group(g) => match g.marker {
            Marker::Optional => if g.flag.is_some() {
                Rule::FlaggedOptional
            } else {
                Rule::PlainOptional
            },
            Marker::Spread => Rule::Spread,
            Marker::Bare => Rule::Expression,
        },
        Token::Word(_) => Rule::Literal,
        Token::QuotedLiteral(_) => Rule::Literal,
    }
}

/// Tells whether a token stands for exactly one text.
pub fn check_single(token: &Token) -> (single: bool)
    ensures
        single == is_single(*token),
{
    match token {
        Token::Group(g) => {
            let bare = match g.marker {
                Marker::Bare => true,
                _ => false,
            };
            let one = match g.value {
                Value::Single(_) => true,
                _ => false,
            };
            g.flag.is_none() && bare && one
        },
        _ => true,
    }
}

/// Tells whether a token is well formed.
pub fn check_token(token: &Token) -> (ok: bool)
    ensures
        ok == well_formed(*token),
{
    match token {
        Token::Group(g) => {
            let one = match g.value {
                Value::Single(_) => true,
                _ => false,
            };
            match g.marker {
                Marker::Bare => g.flag.is_none() && one,
                Marker::Spread => g.flag.is_none() && !one,
                Marker::Optional => match &g.flag {
                    Some(flag) => check_single(flag) && !one,
                    None => match g.value {
                        Value::Optional(_) => true,
                        _ => false,
                    },
                },
            }
        },
        _ => true,
    }
}

/// Tells whether a line can be built.
pub fn check_line(tokens: &[Token]) -> (ok: bool)
    ensures
        ok == well_formed_line(tokens@),
{
    if tokens.len() == 0 || !check_single(&tokens[0]) {
        return false;
    }
    let mut i: usize = 1;
    while i < tokens.len()
        invariant
            1 <= i <= tokens.len(),
            forall|j: int| 1 <= j < i ==> well_formed(#[trigger] tokens@[j]),
        decreases tokens.len() - i,
    {
        if !check_token(&tokens[i]) {
            return false;
        }
        i = i + 1;
    }
    true
}

/// The text of a single token.
pub fn cmd_partial<'a>(token: &Token<'a>, env: &'a Environment) -> (text: &'a str)
    requires
        is_single(*token),
    ensures
        text@ == single_text(*token, env@),
{
    match token {
        Token::Word(s) => s,
        Token::QuotedLiteral(s) => s,
        Token::EnvRef(name) => env.var(name),
        Token::Group(g) => match g.value {
            Value::Single(s) => s,
            _ => "",
        },
    }
}

/// Appends to `list` the arguments that `token` produces: the token's rule
/// is found first, and then applied.
pub fn arg<'a>(list: &mut ArgContainer<'a>, token: &Token<'a>, env: &'a Environment)
    requires
        well_formed(*token),
    ensures
        final(list)@ == old(list)@ + token_args(*token, env@),
{
    match (classify(token), token) {
        (Rule::FlaggedOptional, Token::Group(group)) => {
            if let Some(flag) = &group.flag {
                let flag = cmd_partial(flag, env);
                match &group.value {
                    Value::List(items) => {
                        let mut cursor = ItemCursor::new(items.as_slice());
                        list.opt_arg((flag, &mut cursor));
                    },
                    Value::Optional(value) => {
                        list.opt_arg((flag, *value));
                    },
                    Value::Single(_) => {},
                }
            }
        },
        (Rule::PlainOptional, Token::Group(group)) => {
            if let Value::Optional(value) = &group.value {
                list.opt_arg(*value);
            }
        },
        (Rule::Spread, Token::Group(group)) => {
            match &group.value {
                Value::List(items) => {
                    list.args(items.as_slice());
                },
                Value::Optional(Some(item)) => {
                    list.arg(item);
                },
                _ => {},
            }
        },
        _ => {
            list.arg(cmd_partial(token, env));
        },
    }
}

/// Builds the argument list of a line: the text of the first token, then
/// what every further token produces, in order.
pub fn args<'a>(tokens: &[Token<'a>], env: &'a Environment) -> (list: ArgContainer<'a>)
    requires
        well_formed_line(tokens@),
    ensures
        list@ == seq![single_text(tokens@[0], env@)] + line_args(tokens@.skip(1), env@),
{
    let mut list = ArgContainer::new(cmd_partial(&tokens[0], env));
    let mut i: usize = 1;
    assert(tokens@.skip(1).take(0) =~= Seq::<Token>::empty());
    while i < tokens.len()
        invariant
            1 <= i <= tokens.len(),
            well_formed_line(tokens@),
            list@ == seq![single_text(tokens@[0], env@)] + line_args(
                tokens@.skip(1).take(i - 1),
                env@,
            ),
        decreases tokens.len() - i,
    {
        arg(&mut list, &tokens[i], env);
        i = i + 1;
        proof {
            let rest = tokens@.skip(1);
            assert(rest.take(i - 1).drop_last() =~= rest.take(i - 2));
            assert(rest.take(i - 1).last() == tokens@[i - 1]);
        }
    }
    assert(tokens@.skip(1).take(i - 1) =~= tokens@.skip(1));
    list
}

/// Builds the command of a line. The first token, and no other, gives the
/// program's name; every further token gives the arguments that it produces,
/// in the order of the tokens.
pub fn cmd(tokens: &[Token], env: &Environment) -> (command: Command)
    requires
        well_formed_line(tokens@),
    ensures
        command.program@ == single_text(tokens@[0], env@),
        command.arguments() == line_args(tokens@.skip(1), env@),
{
    let list = args(tokens, env);
    let ghost produced = line_args(tokens@.skip(1), env@);
    assert(list.args@.len() == list@.len());
    assert(list@.len() == 1 + produced.len());
    assert(list.args@[0]@ == list@[0]);
    let mut command = Command::new(list.args[0]);
    let mut i: usize = 1;
    while i < list.args.len()
        invariant
            1 <= i <= list.args.len(),
            tokens@.len() > 0,
            list.args@.len() == 1 + produced.len(),
            list@ == seq![single_text(tokens@[0], env@)] + produced,
            command.program@ == single_text(tokens@[0], env@),
            command.arguments() == produced.take(i - 1),
        decreases list.args.len() - i,
    {
        assert(list.args@[i as int]@ == list@[i as int]);
        assert(list@[i as int] == produced[i - 1]);
        command.arg(list.args[i]);
        i = i + 1;
        assert(produced.take(i - 1) =~= produced.take(i - 2).push(produced[i - 2]));
    }
    assert(produced.take(i - 1) =~= produced);
    command
}

} // verus!
