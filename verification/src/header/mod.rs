//! The header collection of a message head: an ordered list of lines, each a
//! name and a value, with names compared without regard to case.

use vstd::prelude::*;
use crate::text::{
    eq_ignore_case, extend, spec_eq_ignore_case, to_vec, CR, LF, SP,
};

pub mod fields;
pub mod line;

verus! {

/// What a header collection holds: its lines in order, each a name and a value.
pub type Lines = Seq<(Seq<u8>, Seq<u8>)>;

/// The colon that separates a name from its value.
pub const COLON: u8 = 58;

/// Whether some line of `h` is named `name`.
pub open spec fn spec_has(h: Lines, name: Seq<u8>) -> bool {
    exists|i: int| 0 <= i < h.len() && spec_eq_ignore_case(#[trigger] h[i].0, name)
}

/// The lines of `h` that are not named `name`, in their order.
pub open spec fn spec_without(h: Lines, name: Seq<u8>) -> Lines
    decreases h.len(),
{
    if h.len() == 0 {
        h
    } else if spec_eq_ignore_case(h.last().0, name) {
        spec_without(h.drop_last(), name)
    } else {
        spec_without(h.drop_last(), name).push(h.last())
    }
}

/// The value of the first line of `h` that is named `name`.
pub open spec fn spec_first_value(h: Lines, name: Seq<u8>) -> Option<Seq<u8>>
    decreases h.len(),
{
    if h.len() == 0 {
        None
    } else if spec_eq_ignore_case(h[0].0, name) {
        Some(h[0].1)
    } else {
        spec_first_value(h.skip(1), name)
    }
}

/// One line on the wire: the name, a colon and a space, the value, CR LF.
pub open spec fn spec_line_bytes(line: (Seq<u8>, Seq<u8>)) -> Seq<u8> {
    line.0 + seq![COLON, SP] + line.1 + seq![CR, LF]
}

/// The lines of `h` on the wire, in their order.
pub open spec fn spec_lines_bytes(h: Lines) -> Seq<u8>
    decreases h.len(),
{
    if h.len() == 0 {
        Seq::<u8>::empty()
    } else {
        spec_lines_bytes(h.drop_last()) + spec_line_bytes(h.last())
    }
}

/// The view of a vector of lines.
pub open spec fn spec_lines_of(v: Seq<(Vec<u8>, Vec<u8>)>) -> Lines {
    Seq::new(v.len(), |i: int| (v[i].0@, v[i].1@))
}

/// The headers of a message, in the order in which they were added.
#[derive(Debug)]
pub struct Headers {
    lines: Vec<(Vec<u8>, Vec<u8>)>,
}

impl View for Headers {
    type V = Lines;

    closed spec fn view(&self) -> Lines {
        spec_lines_of(self.lines@)
    }
}

/// A typed header: something that knows its name and can write its value.
pub trait Header {
    /// The name of the header.
    spec fn spec_name(&self) -> Seq<u8>;

    /// The value of the header as it stands on the wire.
    spec fn spec_value(&self) -> Seq<u8>;

    /// Gives the name of the header.
    fn header_name(&self) -> (r: Vec<u8>)
        ensures
            r@ == self.spec_name(),
    ;

    /// Writes the value of the header.
    fn header_value(&self) -> (r: Vec<u8>)
        ensures
            r@ == self.spec_value(),
    ;
}

impl Headers {
    /// Makes an empty collection.
    pub fn new() -> (r: Headers)
        ensures
            r@ == Seq::<(Seq<u8>, Seq<u8>)>::empty(),
    {
        let r = Headers { lines: Vec::new() };
        assert(r@ =~= Seq::<(Seq<u8>, Seq<u8>)>::empty());
        r
    }

    /// The number of lines.
    pub fn len(&self) -> (r: usize)
        ensures
            r == self@.len(),
    {
        self.lines.len()
    }

    /// Tells whether the collection has no line.
    pub fn is_empty(&self) -> (r: bool)
        ensures
            r == (self@.len() == 0),
    {
        self.lines.len() == 0
    }

    /// The name of line `i`.
    pub fn name_at(&self, i: usize) -> (r: &[u8])
        requires
            i < self@.len(),
        ensures
            r@ == self@[i as int].0,
    {
        self.lines[i].0.as_slice()
    }

    /// The value of line `i`.
    pub fn value_at(&self, i: usize) -> (r: &[u8])
        requires
            i < self@.len(),
        ensures
            r@ == self@[i as int].1,
    {
        self.lines[i].1.as_slice()
    }

    /// Adds a line at the end, whatever lines of that name there are already.
    pub fn append_raw(&mut self, name: &[u8], value: &[u8])
        ensures
            final(self)@ == old(self)@.push((name@, value@)),
    {
        self.lines.push((to_vec(name), to_vec(value)));
        assert(self@ =~= old(self)@.push((name@, value@)));
    }

    /// Tells whether some line is named `name`.
    pub fn has_raw(&self, name: &[u8]) -> (r: bool)
        ensures
            r == spec_has(self@, name@),
    {
        let mut i: usize = 0;
        while i < self.lines.len()
            invariant
                i <= self.lines.len(),
                forall|j: int| 0 <= j < i ==> !spec_eq_ignore_case(#[trigger] self@[j].0, name@),
            decreases self.lines.len() - i,
        {
            if eq_ignore_case(self.lines[i].0.as_slice(), name) {
                assert(spec_eq_ignore_case(self@[i as int].0, name@));
                return true;
            }
            i += 1;
        }
        false
    }

    /// The value of the first line named `name`.
    pub fn get_raw(&self, name: &[u8]) -> (r: Option<&[u8]>)
        ensures
            match r {
                Some(v) => spec_first_value(self@, name@) == Some(v@),
                None => spec_first_value(self@, name@).is_none(),
            },
    {
        let mut i: usize = 0;
        assert(self@.skip(0) =~= self@);
        while i < self.lines.len()
            invariant
                i <= self.lines.len(),
                spec_first_value(self@, name@) == spec_first_value(self@.skip(i as int), name@),
            decreases self.lines.len() - i,
        {
            if eq_ignore_case(self.lines[i].0.as_slice(), name) {
                return Some(self.lines[i].1.as_slice());
            }
            assert(self@.skip(i as int).skip(1) =~= self@.skip(i as int + 1));
            i += 1;
        }
        None
    }

    /// Removes every line named `name`, and tells whether there was one.
    pub fn remove_raw(&mut self, name: &[u8]) -> (r: bool)
        ensures
            final(self)@ == spec_without(old(self)@, name@),
            r == spec_has(old(self)@, name@),
    {
        let mut kept: Vec<(Vec<u8>, Vec<u8>)> = Vec::new();
        let mut found = false;
        let mut i: usize = 0;
        let ghost before = self@;
        assert(before.take(0) =~= Seq::<(Seq<u8>, Seq<u8>)>::empty());
        assert(spec_lines_of(kept@) =~= Seq::<(Seq<u8>, Seq<u8>)>::empty());
        while i < self.lines.len()
            invariant
                i <= self.lines.len(),
                self@ == before,
                spec_lines_of(kept@) == spec_without(before.take(i as int), name@),
                found <==> exists|j: int| 0 <= j < i && spec_eq_ignore_case(#[trigger] before[j].0, name@),
            decreases self.lines.len() - i,
        {
            proof {
                assert(before.take(i as int + 1).drop_last() =~= before.take(i as int));
                assert(before.take(i as int + 1).last() == before[i as int]);
            }
            if eq_ignore_case(self.lines[i].0.as_slice(), name) {
                assert(spec_eq_ignore_case(before[i as int].0, name@));
                found = true;
            } else {
                let ghost prior = spec_lines_of(kept@);
                kept.push((to_vec(self.lines[i].0.as_slice()), to_vec(self.lines[i].1.as_slice())));
                assert(spec_lines_of(kept@) =~= prior.push(before[i as int]));
            }
            i += 1;
        }
        assert(before.take(i as int) =~= before);
        self.lines = kept;
        found
    }

    /// Replaces every line named `name` by one line at the end.
    pub fn set_raw(&mut self, name: &[u8], value: &[u8])
        ensures
            final(self)@ == spec_without(old(self)@, name@).push((name@, value@)),
    {
        self.remove_raw(name);
        self.append_raw(name, value);
    }

    /// Replaces every line that has the name of `header` by the line that
    /// `header` writes.
    pub fn set<H: Header>(&mut self, header: H)
        ensures
            final(self)@ == spec_without(old(self)@, header.spec_name()).push(
                (header.spec_name(), header.spec_value()),
            ),
    {
        let name = header.header_name();
        let value = header.header_value();
        self.set_raw(name.as_slice(), value.as_slice());
    }

    /// Appends every line to `dst` as it stands on the wire.
    pub fn write_to(&self, dst: &mut Vec<u8>)
        ensures
            final(dst)@ == old(dst)@ + spec_lines_bytes(self@),
    {
        let mut i: usize = 0;
        assert(self@.take(0) =~= Seq::<(Seq<u8>, Seq<u8>)>::empty());
        assert(dst@ =~= old(dst)@ + spec_lines_bytes(self@.take(0)));
        while i < self.lines.len()
            invariant
                i <= self.lines.len(),
                dst@ == old(dst)@ + spec_lines_bytes(self@.take(i as int)),
            decreases self.lines.len() - i,
        {
            let ghost prior = dst@;
            extend(dst, self.lines[i].0.as_slice());
            dst.push(COLON);
            dst.push(SP);
            extend(dst, self.lines[i].1.as_slice());
            dst.push(CR);
            dst.push(LF);
            proof {
                assert(self@.take(i as int + 1).drop_last() =~= self@.take(i as int));
                assert(self@.take(i as int + 1).last() == self@[i as int]);
                assert(dst@ =~= prior + spec_line_bytes(self@[i as int]));
                assert(dst@ =~= old(dst)@ + spec_lines_bytes(self@.take(i as int + 1)));
            }
            i += 1;
        }
        assert(self@.take(i as int) =~= self@);
    }
}

impl Clone for Headers {
    fn clone(&self) -> (r: Headers)
        ensures
            r@ == self@,
    {
        let mut lines: Vec<(Vec<u8>, Vec<u8>)> = Vec::new();
        let mut i: usize = 0;
        while i < self.lines.len()
            invariant
                i <= self.lines.len(),
                spec_lines_of(lines@) =~= self@.take(i as int),
            decreases self.lines.len() - i,
        {
            let ghost prior = spec_lines_of(lines@);
            lines.push((to_vec(self.lines[i].0.as_slice()), to_vec(self.lines[i].1.as_slice())));
            assert(spec_lines_of(lines@) =~= prior.push(self@[i as int]));
            i += 1;
        }
        assert(self@.take(i as int) =~= self@);
        Headers { lines }
    }
}

impl Default for Headers {
    /// The empty collection.
    fn default() -> (r: Headers)
        ensures
            r@ == Seq::<(Seq<u8>, Seq<u8>)>::empty(),
    {
        Headers::new()
    }
}

} // verus!
