//! A bare argument list, for adding to a command that exists already.

use crate::opt_arg::{text_of, ItemCursor, OptionalArgExtension, OptionalShape};
use vstd::prelude::*;

verus! {

/// An ordered list of arguments under construction. It borrows its items.
#[derive(Debug, Clone)]
pub struct ArgContainer<'a> {
    pub args: Vec<&'a str>,
}

impl<'a> ArgContainer<'a> {
    /// The arguments as text, in order.
    pub open spec fn view(&self) -> Seq<Seq<char>> {
        self.args.deep_view()
    }

    /// A list that holds `arg` alone.
    pub fn new(arg: &'a str) -> (list: Self)
        ensures
            list@ == seq![arg@],
    {
        let mut args: Vec<&'a str> = Vec::new();
        args.push(arg);
        let list = ArgContainer { args };
        assert(list@ =~= seq![arg@]);
        list
    }

    /// Appends one argument.
    pub fn arg(&mut self, arg: &'a str) -> (r: &mut Self)
        ensures
            r@ == old(self)@.push(arg@),
            *final(self) == *final(r),
    {
        self.args.push(arg);
        assert(self@ =~= old(self)@.push(arg@));
        self
    }

    /// Appends every item of `args`, in order.
    pub fn args(&mut self, args: &[&'a str]) -> (r: &mut Self)
        ensures
            r@ == old(self)@ + args.deep_view(),
            *final(self) == *final(r),
    {
        let mut i: usize = 0;
        while i < args.len()
            invariant
                i <= args.len(),
                self@ == old(self)@ + args.deep_view().take(i as int),
            decreases args.len() - i,
        {
            let ghost before = self@;
            self.args.push(args[i]);
            assert(self@ =~= before.push(args[i as int]@));
            i = i + 1;
            assert(args.deep_view().take(i as int) =~= args.deep_view().take(i - 1).push(args[i - 1]@));
            assert(self@ =~= old(self)@ + args.deep_view().take(i as int));
        }
        assert(args.deep_view().take(i as int) =~= args.deep_view());
        self
    }
}

impl<'a> OptionalArgExtension<Option<&'a str>> for ArgContainer<'a> {
    open spec fn listed(&self) -> Seq<Seq<char>> {
        self@
    }

    open spec fn shape(val: Option<&'a str>) -> OptionalShape {
        OptionalShape::Plain(text_of(val))
    }

    fn opt_arg(&mut self, val: Option<&'a str>) -> (r: &mut Self) {
        if let Some(arg) = val {
            self.args.push(arg);
            assert(self@ =~= old(self)@ + seq![arg@]);
        } else {
            assert(self@ =~= old(self)@ + Seq::<Seq<char>>::empty());
        }
        self
    }
}

impl<'a> OptionalArgExtension<(&'a str, Option<&'a str>)> for ArgContainer<'a> {
    open spec fn listed(&self) -> Seq<Seq<char>> {
        self@
    }

    open spec fn shape(val: (&'a str, Option<&'a str>)) -> OptionalShape {
        OptionalShape::Flagged(val.0@, text_of(val.1))
    }

    fn opt_arg(&mut self, val: (&'a str, Option<&'a str>)) -> (r: &mut Self) {
        let (flag, value) = val;
        if let Some(arg) = value {
            self.args.push(flag);
            self.args.push(arg);
            assert(self@ =~= old(self)@ + seq![flag@, arg@]);
        } else {
            assert(self@ =~= old(self)@ + Seq::<Seq<char>>::empty());
        }
        self
    }
}

impl<'c, 'b, 'a> OptionalArgExtension<(&'a str, &'c mut ItemCursor<'b, 'a>)> for ArgContainer<'a> {
    open spec fn listed(&self) -> Seq<Seq<char>> {
        self@
    }

    open spec fn shape(val: (&'a str, &'c mut ItemCursor<'b, 'a>)) -> OptionalShape {
        OptionalShape::FlaggedList(val.0@, val.1.remaining())
    }

    /// Walks the items that are left once: each is handed out once, and
    /// none is left.
    fn opt_arg(&mut self, val: (&'a str, &'c mut ItemCursor<'b, 'a>)) -> (r: &mut Self)
        ensures
            final(val.1).remaining().len() == 0,
            final(val.1).handed_out() == old(val.1).handed_out() + old(val.1).remaining().len(),
    {
        let (flag, items) = val;
        let ghost all = items.remaining();
        let ghost start = items.handed_out();
        if let Some(first) = items.next() {
            self.args.push(flag);
            self.args.push(first);
            assert(self@ =~= old(self)@ + seq![flag@] + all.take(1));
            let ghost mut taken: int = 1;
            loop
                invariant
                    1 <= taken <= all.len(),
                    items.remaining() == all.skip(taken),
                    items.handed_out() == start + taken,
                    self@ == old(self)@ + seq![flag@] + all.take(taken),
                ensures
                    self@ == old(self)@ + seq![flag@] + all,
                    items.remaining().len() == 0,
                    items.handed_out() == start + all.len(),
                decreases all.len() - taken,
            {
                match items.next() {
                    Some(item) => {
                        let ghost before = self@;
                        self.args.push(item);
                        assert(self@ =~= before.push(item@));
                        proof {
                            taken = taken + 1;
                        }
                        assert(all.take(taken) =~= all.take(taken - 1).push(item@));
                        assert(items.remaining() =~= all.skip(taken));
                        assert(self@ =~= old(self)@ + seq![flag@] + all.take(taken));
                    },
                    None => {
                        assert(all.take(taken) =~= all);
                        break ;
                    },
                }
            }
            assert(self@ =~= old(self)@ + (seq![flag@] + all));
        } else {
            assert(self@ =~= old(self)@ + Seq::<Seq<char>>::empty());
        }
        self
    }
}

impl<'a> OptionalArgExtension<(&'a str, Vec<&'a str>)> for ArgContainer<'a> {
    open spec fn listed(&self) -> Seq<Seq<char>> {
        self@
    }

    open spec fn shape(val: (&'a str, Vec<&'a str>)) -> OptionalShape {
        OptionalShape::FlaggedList(val.0@, val.1.deep_view())
    }

    fn opt_arg(&mut self, val: (&'a str, Vec<&'a str>)) -> (r: &mut Self) {
        let (flag, items) = val;
        let mut cursor = ItemCursor::new(items.as_slice());
        self.opt_arg((flag, &mut cursor))
    }
}

} // verus!
