use vstd::prelude::*;

verus! {

/// The lower-case hexadecimal digit for a value below 16.
pub open spec fn hex_char(n: u8) -> char {
    if n < 10 {
        ((48 + n) as u8) as char
    } else {
        ((87 + n) as u8) as char
    }
}

/// Two digits for each byte, high nibble first.
pub open spec fn hex_digits(b: Seq<u8>) -> Seq<char>
    decreases b.len(),
{
    if b.len() == 0 {
        Seq::empty()
    } else {
        seq![hex_char(b[0] >> 4), hex_char(b[0] & 15)] + hex_digits(b.drop_first())
    }
}

fn nibble_char(n: u8) -> (c: char)
    requires
        n < 16,
    ensures
        c == hex_char(n),
{
    if n < 10 {
        (48 + n) as char
    } else {
        (87 + n) as char
    }
}

/// The hexadecimal digits of a byte slice, produced one at a time.
#[derive(Clone, Copy, Debug)]
pub struct Hex<'a> {
    bytes: &'a [u8],
    pos: usize,
    second: bool,
}

impl<'a> Hex<'a> {
    /// The digits that are still to come.
    pub closed spec fn view(&self) -> Seq<char> {
        let rest = hex_digits(self.bytes@.subrange(self.pos as int, self.bytes@.len() as int));
        if self.second {
            rest.drop_first()
        } else {
            rest
        }
    }

    pub closed spec fn wf(&self) -> bool {
        self.pos <= self.bytes@.len() && (self.second ==> self.pos < self.bytes@.len())
    }

    /// The digits of `bytes`.
    pub fn new(bytes: &'a [u8]) -> (r: Hex<'a>)
        ensures
            r.wf(),
            r.view() == hex_digits(bytes@),
    {
        let r = Hex { bytes, pos: 0, second: false };
        assert(bytes@.subrange(0, bytes@.len() as int) =~= bytes@);
        r
    }

    /// The next digit, if any is left.
    pub fn next(&mut self) -> (r: Option<char>)
        requires
            old(self).wf(),
        ensures
            final(self).wf(),
            old(self).view().len() == 0 ==> r is None && final(self).view() == old(self).view(),
            old(self).view().len() > 0 ==> r == Some(old(self).view()[0]) && final(self).view()
                == old(self).view().drop_first(),
    {
        if self.pos < self.bytes.len() {
            let ghost tail = self.bytes@.subrange(self.pos as int, self.bytes@.len() as int);
            let ghost tail2 = self.bytes@.subrange(self.pos + 1, self.bytes@.len() as int);
            assert(tail.drop_first() =~= tail2);
            let byte = self.bytes[self.pos];
            let second = self.second;
            assert(byte >> 4 < 16) by (bit_vector);
            assert(byte & 15 < 16) by (bit_vector);
            let c = if !second {
                nibble_char(byte >> 4)
            } else {
                nibble_char(byte & 15)
            };
            if second {
                self.pos = self.pos + 1;
            }
            self.second = !second;
            assert(hex_digits(tail) == seq![hex_char(byte >> 4), hex_char(byte & 15)] + hex_digits(
                tail2,
            ));
            proof {
                if second {
                    assert(old(self).view() =~= seq![hex_char(byte & 15)] + hex_digits(tail2));
                    assert(final(self).view() =~= hex_digits(tail2));
                } else {
                    assert(final(self).view() =~= seq![hex_char(byte & 15)] + hex_digits(tail2));
                }
            }
            Some(c)
        } else {
            assert(self.bytes@.subrange(self.pos as int, self.bytes@.len() as int).len() == 0);
            None
        }
    }

    /// All the digits that are still to come, in order.
    pub fn to_chars(&self) -> (r: Vec<char>)
        requires
            self.wf(),
        ensures
            r@ == self.view(),
    {
        let mut it = *self;
        let mut out: Vec<char> = Vec::new();
        loop
            invariant
                it.wf(),
                out@ + it.view() == self.view(),
            ensures
                out@ == self.view(),
            decreases it.view().len(),
        {
            let ghost before = it.view();
            match it.next() {
                Some(c) => {
                    proof {
                        assert(before =~= seq![c] + it.view());
                        assert(out@.push(c) + it.view() =~= out@ + before);
                    }
                    out.push(c);
                },
                None => {
                    assert(out@ + before =~= out@);
                    break;
                },
            }
        }
        out
    }
}

/// Hexadecimal rendering of a byte string.
pub trait ToHex {
    spec fn hex_source(&self) -> Seq<u8>;

    fn to_hex(&self) -> (r: Hex<'_>)
        ensures
            r.wf(),
            r.view() == hex_digits(self.hex_source()),
    ;
}

impl ToHex for [u8] {
    open spec fn hex_source(&self) -> Seq<u8> {
        self@
    }

    fn to_hex(&self) -> (r: Hex<'_>) {
        Hex::new(self)
    }
}

} // verus!
