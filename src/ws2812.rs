//! Prerendering for WS2812-style LED strips driven over SPI: every colour byte
//! becomes four SPI bytes, each sending two bits as a high pulse followed by a
//! low one. The transfer itself is done by the SPI bus outside the library.

use core::marker::PhantomData;

use vstd::prelude::*;

use crate::devices;

verus! {

/// Why a strip could not be written.
#[derive(Debug)]
pub enum StripError<E> {
    /// The prerender buffer is too small for the colours.
    OutOfBounds,
    /// The SPI bus failed.
    Spi(E),
}

/// The two bits of `b` sent `k`-th (0 to 3), most significant first.
pub open spec fn bit_pair(b: u8, k: int) -> u8 {
    (b >> (6 - 2 * k) as u8) & 3u8
}

/// The SPI byte that sends a pair of bits.
pub open spec fn pattern(bits: u8) -> u8 {
    if bits == 0 {
        0b1000_1000
    } else if bits == 1 {
        0b1000_1110
    } else if bits == 2 {
        0b1110_1000
    } else {
        0b1110_1110
    }
}

/// The four SPI bytes that send `b`.
pub open spec fn byte_code(b: u8) -> Seq<u8> {
    seq![pattern(bit_pair(b, 0)), pattern(bit_pair(b, 1)), pattern(bit_pair(b, 2)), pattern(bit_pair(b, 3))]
}

/// The SPI bytes of a run of RGB colours, each sent green, red, blue.
pub open spec fn rgb_code(colors: Seq<(u8, u8, u8)>) -> Seq<u8>
    decreases colors.len(),
{
    if colors.len() == 0 {
        seq![]
    } else {
        let c = colors.last();
        rgb_code(colors.drop_last()) + byte_code(c.1) + byte_code(c.0) + byte_code(c.2)
    }
}

/// The SPI bytes of a run of RGBW colours, each sent green, red, blue, white.
pub open spec fn rgbw_code(colors: Seq<(u8, u8, u8, u8)>) -> Seq<u8>
    decreases colors.len(),
{
    if colors.len() == 0 {
        seq![]
    } else {
        let c = colors.last();
        rgbw_code(colors.drop_last()) + byte_code(c.1) + byte_code(c.0) + byte_code(c.2) + byte_code(c.3)
    }
}

/// The SPI byte that sends a pair of bits.
fn pattern_of(bits: u8) -> (r: u8)
    ensures
        r == pattern(bits),
{
    if bits == 0 {
        0b1000_1000
    } else if bits == 1 {
        0b1000_1110
    } else if bits == 2 {
        0b1110_1000
    } else {
        0b1110_1110
    }
}

/// A strip driver with its SPI bus and the buffer it prerenders into; `index`
/// bytes of the buffer are ready to send.
pub struct Ws2812<SPI, DEVICE = devices::Ws2812> {
    pub spi: SPI,
    pub data: Vec<u8>,
    pub index: usize,
    pub device: PhantomData<DEVICE>,
}

impl<SPI> Ws2812<SPI> {
    /// A driver for RGB strips, prerendering into `data`.
    pub fn new(spi: SPI, data: Vec<u8>) -> (r: Self)
        ensures
            r.spi == spi,
            r.data == data,
            r.index == 0,
    {
        Ws2812 { spi, data, index: 0, device: PhantomData }
    }
}

impl<SPI> Ws2812<SPI, devices::Sk6812w> {
    /// A driver for RGBW strips, prerendering into `data`.
    pub fn new_sk6812w(spi: SPI, data: Vec<u8>) -> (r: Self)
        ensures
            r.spi == spi,
            r.data == data,
            r.index == 0,
    {
        Ws2812 { spi, data, index: 0, device: PhantomData }
    }
}


impl<SPI> Ws2812<SPI, devices::Sk6812w> {
    /// Prerenders a run of RGBW colours from the start of the buffer, each as
    /// green, red, blue, white; refused when the buffer holds fewer than
    /// sixteen bytes per colour.
    pub fn write_rgbw<E>(&mut self, colors: &[(u8, u8, u8, u8)]) -> (r: Result<(), StripError<E>>)
        ensures
            final(self).data@.len() == old(self).data@.len(),
            r is Ok <==> 16 * colors@.len() <= old(self).data@.len(),
            r is Err ==> r->Err_0 is OutOfBounds,
            r is Ok ==> final(self).index == 16 * colors@.len() && final(self).data@.subrange(0, final(self).index as int) == rgbw_code(colors@),
    {
        self.index = 0;
        let mut i: usize = 0;
        while i < colors.len()
            invariant
                i <= colors@.len(),
                self.index == 16 * i,
                self.index <= self.data@.len(),
                self.data@.len() == old(self).data@.len(),
                16 * i <= old(self).data@.len(),
                self.data@.subrange(0, self.index as int) == rgbw_code(colors@.subrange(0, i as int)),
            decreases colors@.len() - i,
        {
            let c = colors[i];
            let ghost before = self.data@;
            let ghost at = self.index as int;
            if self.data.len() - self.index < 16 {
                proof {
                    let total = old(self).data@.len();
                    let n = colors@.len();
                    assert(16 * n > total) by (nonlinear_arith)
                        requires i < n, 16 * i + 16 > total;
                }
                return Err(StripError::OutOfBounds);
            }
            let _ = self.write_byte::<E>(c.1);
            let _ = self.write_byte::<E>(c.0);
            let _ = self.write_byte::<E>(c.2);
            let _ = self.write_byte::<E>(c.3);
            proof {
                assert(colors@.subrange(0, i + 1).drop_last() =~= colors@.subrange(0, i as int));
                assert(self.data@.subrange(0, at + 16) =~= before.subrange(0, at) + byte_code(c.1) + byte_code(c.0) + byte_code(c.2) + byte_code(c.3));
            }
            i = i + 1;
        }
        proof {
            assert(colors@.subrange(0, colors@.len() as int) =~= colors@);
        }
        Ok(())
    }
}

impl<SPI, D> Ws2812<SPI, D> {
    /// Prerenders one colour byte as four SPI bytes at `index`; refused, with
    /// nothing changed, when they do not fit the buffer.
    pub fn write_byte<E>(&mut self, data: u8) -> (r: Result<(), StripError<E>>)
        requires
            old(self).index <= old(self).data@.len(),
        ensures
            final(self).index <= final(self).data@.len(),
            final(self).data@.len() == old(self).data@.len(),
            old(self).index + 4 > old(self).data@.len() ==> r is Err && r->Err_0 is OutOfBounds && final(self).data == old(self).data && final(self).index == old(self).index,
            old(self).index + 4 <= old(self).data@.len() ==> {
                &&& r is Ok
                &&& final(self).index == old(self).index + 4
                &&& final(self).data@ == old(self).data@.subrange(0, old(self).index as int) + byte_code(data)
                    + old(self).data@.subrange(old(self).index + 4, old(self).data@.len() as int)
            },
    {
        if self.data.len() - self.index < 4 {
            return Err(StripError::OutOfBounds);
        }
        let start = self.index;
        let mut k: u8 = 0;
        while k < 4
            invariant
                k <= 4,
                start == old(self).index,
                start + 4 <= old(self).data@.len(),
                old(self).data@.len() <= usize::MAX,
                self.index == start + k,
                self.data@.len() == old(self).data@.len(),
                forall|i: int| 0 <= i < start ==> self.data@[i] == old(self).data@[i],
                forall|i: int| start + 4 <= i < self.data@.len() ==> self.data@[i] == old(self).data@[i],
                forall|i: int| 0 <= i < k ==> self.data@[start + i] == pattern(bit_pair(data, i)),
            decreases 4 - k,
        {
            let bits = (data >> (6 - 2 * k)) & 3;
            let i = self.index;
            self.data.set(i, pattern_of(bits));
            self.index = self.index + 1;
            k = k + 1;
        }
        assert(self.data@ =~= old(self).data@.subrange(0, start as int) + byte_code(data)
            + old(self).data@.subrange(start + 4, old(self).data@.len() as int));
        Ok(())
    }

    /// Prerenders a run of RGB colours from the start of the buffer, each as
    /// green, red, blue; refused when the buffer holds fewer than twelve bytes
    /// per colour.
    pub fn write_rgb<E>(&mut self, colors: &[(u8, u8, u8)]) -> (r: Result<(), StripError<E>>)
        ensures
            final(self).data@.len() == old(self).data@.len(),
            r is Ok <==> 12 * colors@.len() <= old(self).data@.len(),
            r is Err ==> r->Err_0 is OutOfBounds,
            r is Ok ==> final(self).index == 12 * colors@.len() && final(self).data@.subrange(0, final(self).index as int) == rgb_code(colors@),
    {
        self.index = 0;
        let mut i: usize = 0;
        while i < colors.len()
            invariant
                i <= colors@.len(),
                self.index == 12 * i,
                self.index <= self.data@.len(),
                self.data@.len() == old(self).data@.len(),
                12 * i <= old(self).data@.len(),
                self.data@.subrange(0, self.index as int) == rgb_code(colors@.subrange(0, i as int)),
            decreases colors@.len() - i,
        {
            let c = colors[i];
            let ghost before = self.data@;
            let ghost at = self.index as int;
            if self.data.len() - self.index < 12 {
                proof {
                    let total = old(self).data@.len();
                    let n = colors@.len();
                    assert(12 * n > total) by (nonlinear_arith)
                        requires i < n, 12 * i + 12 > total;
                }
                return Err(StripError::OutOfBounds);
            }
            let _ = self.write_byte::<E>(c.1);
            let _ = self.write_byte::<E>(c.0);
            let _ = self.write_byte::<E>(c.2);
            proof {
                assert(colors@.subrange(0, i + 1).drop_last() =~= colors@.subrange(0, i as int));
                assert(self.data@.subrange(0, at + 12) =~= before.subrange(0, at) + byte_code(c.1) + byte_code(c.0) + byte_code(c.2));
            }
            i = i + 1;
        }
        proof {
            assert(colors@.subrange(0, colors@.len() as int) =~= colors@);
        }
        Ok(())
    }

    /// The prerendered bytes, ready to send.
    pub fn rendered(&self) -> (r: &[u8])
        requires
            self.index <= self.data@.len(),
        ensures
            r@ == self.data@.subrange(0, self.index as int),
    {
        let s = self.data.as_slice();
        let (head, _) = s.split_at(self.index);
        head
    }
}

} // verus!
