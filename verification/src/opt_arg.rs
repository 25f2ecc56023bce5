//! The optional-argument resolver: whether a value, and the flag in front of
//! it, become arguments at all.

use crate::command::Command;
use vstd::prelude::*;

verus! {

/// What a value handed to the resolver looks like, as plain text.
pub enum OptionalShape {
    /// A value that may be absent.
    Plain(Option<Seq<char>>),
    /// A flag and a value that may be absent.
    Flagged(Seq<char>, Option<Seq<char>>),
    /// A flag and any number of values.
    FlaggedList(Seq<char>, Seq<Seq<char>>),
}

/// The arguments that a shape contributes, in order. A flag never stands
/// alone: it is there exactly when a value follows it.
pub open spec fn resolve(shape: OptionalShape) -> Seq<Seq<char>> {
    match shape {
        OptionalShape::Plain(None) => Seq::empty(),
        OptionalShape::Plain(Some(value)) => seq![value],
        OptionalShape::Flagged(_, None) => Seq::empty(),
        OptionalShape::Flagged(flag, Some(value)) => seq![flag, value],
        OptionalShape::FlaggedList(flag, values) => if values.len() == 0 {
            Seq::empty()
        } else {
            seq![flag] + values
        },
    }
}

/// The text of an optional string slice.
pub open spec fn text_of(value: Option<&str>) -> Option<Seq<char>> {
    match value {
        Some(s) => Some(s@),
        None => None,
    }
}

/// A plain value that is absent contributes nothing; one that is present
/// contributes itself, alone.
pub proof fn lemma_plain_resolution(value: Seq<char>)
    ensures
        resolve(OptionalShape::Plain(None)) == Seq::<Seq<char>>::empty(),
        resolve(OptionalShape::Plain(Some(value))) == seq![value],
{
}

/// A flag whose value is absent contributes nothing, not even the flag; a
/// flag whose value is present contributes the flag and then the value.
pub proof fn lemma_flagged_resolution(flag: Seq<char>, value: Seq<char>)
    ensures
        resolve(OptionalShape::Flagged(flag, None)) == Seq::<Seq<char>>::empty(),
        resolve(OptionalShape::Flagged(flag, Some(value))) == seq![flag, value],
{
}

/// A flag with an empty list contributes nothing; with a list that is not
/// empty it contributes the flag once and then every item of the list, each
/// at its place.
pub proof fn lemma_flagged_list_resolution(flag: Seq<char>, values: Seq<Seq<char>>)
    ensures
        values.len() == 0 ==> resolve(OptionalShape::FlaggedList(flag, values)) == Seq::<
            Seq<char>,
        >::empty(),
        values.len() > 0 ==> resolve(OptionalShape::FlaggedList(flag, values)) == seq![flag]
            + values,
        values.len() > 0 ==> resolve(OptionalShape::FlaggedList(flag, values)).len() == 1
            + values.len(),
        forall|i: int|
            0 <= i < values.len() ==> resolve(OptionalShape::FlaggedList(flag, values))[i + 1]
                == #[trigger] values[i],
{
}

/// A flag never stands alone: what a flagged shape contributes is never a
/// single argument, and where it is not empty the flag comes first.
pub proof fn lemma_flag_never_alone(
    flag: Seq<char>,
    value: Option<Seq<char>>,
    values: Seq<Seq<char>>,
)
    ensures
        resolve(OptionalShape::Flagged(flag, value)).len() != 1,
        resolve(OptionalShape::FlaggedList(flag, values)).len() != 1,
        resolve(OptionalShape::Flagged(flag, value)).len() > 0 ==> resolve(
            OptionalShape::Flagged(flag, value),
        )[0] == flag,
        resolve(OptionalShape::FlaggedList(flag, values)).len() > 0 ==> resolve(
            OptionalShape::FlaggedList(flag, values),
        )[0] == flag,
{
}

/// A flag with a value that may be absent contributes what the same flag
/// would with a list of that one value, or of none.
pub proof fn lemma_flagged_as_list(flag: Seq<char>, value: Option<Seq<char>>)
    ensures
        resolve(OptionalShape::Flagged(flag, value)) == resolve(
            OptionalShape::FlaggedList(
                flag,
                match value {
                    Some(v) => seq![v],
                    None => Seq::empty(),
                },
            ),
        ),
{
    if let Some(v) = value {
        assert(seq![flag, v] =~= seq![flag] + seq![v]);
    }
}

/// A walk over a sequence of items, once, front to back. An item that was
/// handed out is never handed out again.
pub struct ItemCursor<'b, 'a> {
    items: &'b [&'a str],
    pos: usize,
}

impl<'b, 'a> ItemCursor<'b, 'a> {
    #[verifier::type_invariant]
    spec fn in_bounds(&self) -> bool {
        self.pos <= self.items@.len()
    }

    /// The items not yet handed out.
    pub closed spec fn remaining(&self) -> Seq<Seq<char>> {
        self.items.deep_view().skip(self.pos as int)
    }

    /// How many items were handed out so far.
    pub closed spec fn handed_out(&self) -> nat {
        self.pos as nat
    }

    /// A cursor standing before the first of `items`.
    pub fn new(items: &'b [&'a str]) -> (cursor: Self)
        ensures
            cursor.remaining() == items.deep_view(),
            cursor.handed_out() == 0,
    {
        let cursor = ItemCursor { items, pos: 0 };
        assert(cursor.remaining() =~= items.deep_view());
        cursor
    }

    /// Hands out the next item, if one is left, and steps past it.
    pub fn next(&mut self) -> (item: Option<&'a str>)
        ensures
            old(self).remaining().len() == 0 ==> item is None && final(self).remaining()
                == old(self).remaining() && final(self).handed_out() == old(self).handed_out(),
            old(self).remaining().len() > 0 ==> item is Some && item->0@ == old(
                self,
            ).remaining()[0] && final(self).remaining() == old(self).remaining().drop_first()
                && final(self).handed_out() == old(self).handed_out() + 1,
    {
        proof {
            use_type_invariant(&*self);
        }
        if self.pos < self.items.len() {
            let item = self.items[self.pos];
            self.pos = self.pos + 1;
            assert(self.remaining() =~= old(self).remaining().drop_first());
            Some(item)
        } else {
            None
        }
    }
}

/// Appends a value to an argument list only where there is something to
/// append.
pub trait OptionalArgExtension<T>: Sized {
    /// The arguments held so far, in order.
    spec fn listed(&self) -> Seq<Seq<char>>;

    /// The shape that `val` has for the resolver.
    spec fn shape(val: T) -> OptionalShape;

    /// Appends what `val` resolves to, and nothing else, behind the arguments
    /// already there.
    fn opt_arg(&mut self, val: T) -> (r: &mut Self)
        ensures
            r.listed() == old(self).listed() + resolve(Self::shape(val)),
            *final(self) == *final(r),
    ;
}

impl<'a> OptionalArgExtension<Option<&'a str>> for Command {
    open spec fn listed(&self) -> Seq<Seq<char>> {
        self.arguments()
    }

    open spec fn shape(val: Option<&'a str>) -> OptionalShape {
        OptionalShape::Plain(text_of(val))
    }

    fn opt_arg(&mut self, val: Option<&'a str>) -> (r: &mut Self)
        ensures
            r.program == old(self).program,
    {
        if let Some(value) = val {
            self.arg(value);
            assert(self.arguments() =~= old(self).arguments() + seq![value@]);
        } else {
            assert(self.arguments() =~= old(self).arguments() + Seq::<Seq<char>>::empty());
        }
        self
    }
}

impl<'a> OptionalArgExtension<(&'a str, Option<&'a str>)> for Command {
    open spec fn listed(&self) -> Seq<Seq<char>> {
        self.arguments()
    }

    open spec fn shape(val: (&'a str, Option<&'a str>)) -> OptionalShape {
        OptionalShape::Flagged(val.0@, text_of(val.1))
    }

    fn opt_arg(&mut self, val: (&'a str, Option<&'a str>)) -> (r: &mut Self)
        ensures
            r.program == old(self).program,
    {
        let (flag, value) = val;
        if let Some(value) = value {
            self.arg(flag).arg(value);
            assert(self.arguments() =~= old(self).arguments() + seq![flag@, value@]);
        } else {
            assert(self.arguments() =~= old(self).arguments() + Seq::<Seq<char>>::empty());
        }
        self
    }
}

impl<'c, 'b, 'a> OptionalArgExtension<(&'a str, &'c mut ItemCursor<'b, 'a>)> for Command {
    open spec fn listed(&self) -> Seq<Seq<char>> {
        self.arguments()
    }

    open spec fn shape(val: (&'a str, &'c mut ItemCursor<'b, 'a>)) -> OptionalShape {
        OptionalShape::FlaggedList(val.0@, val.1.remaining())
    }

    /// Walks the items that are left once: each is handed out once, and
    /// none is left.
    fn opt_arg(&mut self, val: (&'a str, &'c mut ItemCursor<'b, 'a>)) -> (r: &mut Self)
        ensures
            r.program == old(self).program,
            final(val.1).remaining().len() == 0,
            final(val.1).handed_out() == old(val.1).handed_out() + old(val.1).remaining().len(),
    {
        let (flag, items) = val;
        let ghost all = items.remaining();
        let ghost start = items.handed_out();
        if let Some(first) = items.next() {
            self.arg(flag).arg(first);
            assert(self.arguments() =~= old(self).arguments() + seq![flag@] + all.take(1));
            let ghost mut taken: int = 1;
            loop
                invariant
                    1 <= taken <= all.len(),
                    items.remaining() == all.skip(taken),
                    items.handed_out() == start + taken,
                    self.program == old(self).program,
                    self.arguments() == old(self).arguments() + seq![flag@] + all.take(taken),
                ensures
                    self.program == old(self).program,
                    self.arguments() == old(self).arguments() + seq![flag@] + all,
                    items.remaining().len() == 0,
                    items.handed_out() == start + all.len(),
                decreases all.len() - taken,
            {
                match items.next() {
                    Some(item) => {
                        self.arg(item);
                        proof {
                            taken = taken + 1;
                        }
                        assert(all.take(taken) =~= all.take(taken - 1).push(item@));
                        assert(items.remaining() =~= all.skip(taken));
                        assert(self.arguments() =~= old(self).arguments() + seq![flag@]
                            + all.take(taken));
                    },
                    None => {
                        assert(all.take(taken) =~= all);
                        break ;
                    },
                }
            }
            assert(self.arguments() =~= old(self).arguments() + (seq![flag@] + all));
        } else {
            assert(self.arguments() =~= old(self).arguments() + Seq::<Seq<char>>::empty());
        }
        self
    }
}

impl<'a> OptionalArgExtension<(&'a str, Vec<&'a str>)> for Command {
    open spec fn listed(&self) -> Seq<Seq<char>> {
        self.arguments()
    }

    open spec fn shape(val: (&'a str, Vec<&'a str>)) -> OptionalShape {
        OptionalShape::FlaggedList(val.0@, val.1.deep_view())
    }

    fn opt_arg(&mut self, val: (&'a str, Vec<&'a str>)) -> (r: &mut Self)
        ensures
            r.program == old(self).program,
    {
        let (flag, items) = val;
        let mut cursor = ItemCursor::new(items.as_slice());
        self.opt_arg((flag, &mut cursor))
    }
}

} // verus!
