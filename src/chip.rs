use vstd::prelude::*;

use wokwi_chip_ll::PinId;

verus! {

/// Length of the buffer sent first, right after power-up.
pub const INIT_LEN: usize = 3;

/// Length of the touch report, which repeats once the init buffer is sent.
pub const TOUCH_LEN: usize = 8;

/// Horizontal resolution of the simulated panel.
pub const SCREEN_WIDTH: u16 = 800;

/// Vertical resolution of the simulated panel.
pub const SCREEN_HEIGHT: u16 = 1280;

/// The 7-bit bus address that the chip answers on.
pub const I2C_ADDRESS: u32 = 0x5D;

/// Status byte of a report: a finger is down.
pub const TOUCH_DOWN: u8 = 0x80;

/// Point-count byte of a report: one finger.
pub const ONE_POINT: u8 = 0x01;

/// The touch report for one finger at (`x`, `y`): status, point count, then
/// each coordinate high byte first, then two reserved zero bytes.
pub open spec fn touch_report_spec(x: u16, y: u16) -> Seq<u8> {
    seq![
        TOUCH_DOWN,
        ONE_POINT,
        (x / 256) as u8,
        (x % 256) as u8,
        (y / 256) as u8,
        (y % 256) as u8,
        0u8,
        0u8,
    ]
}

/// Encodes the touch report for one finger at (`x`, `y`).
pub fn touch_report(x: u16, y: u16) -> (r: [u8; 8])
    ensures
        r@ == touch_report_spec(x, y),
{
    let r: [u8; 8] = [
        TOUCH_DOWN,
        ONE_POINT,
        (x / 256) as u8,
        (x % 256) as u8,
        (y / 256) as u8,
        (y % 256) as u8,
        0,
        0,
    ];
    assert(r@ =~= touch_report_spec(x, y));
    r
}

/// Which buffer the read dispatcher draws from.
#[derive(Debug, Clone, Copy, PartialEq, Eq, Structural)]
pub enum ChipState {
    Init,
    Touch,
}

/// One simulated touch controller.
#[derive(Debug, Clone, Copy)]
pub struct Chip {
    pub pin_in: PinId,
    pub pin_out: PinId,
    pub chip_state: ChipState,
    pub init_data: [u8; 3],
    pub touch_data: [u8; 8],
    /// Index of the next byte to send from the active buffer.
    pub current_byte: usize,
}

impl Chip {
    /// The length of the buffer that `state` reads from.
    pub open spec fn buffer_len(state: ChipState) -> nat {
        match state {
            ChipState::Init => INIT_LEN as nat,
            ChipState::Touch => TOUCH_LEN as nat,
        }
    }

    /// The cursor points into the active buffer.
    pub open spec fn wf(&self) -> bool {
        self.current_byte < Self::buffer_len(self.chip_state)
    }

    /// The byte that the next read returns.
    pub open spec fn next_byte(&self) -> u8 {
        match self.chip_state {
            ChipState::Init => self.init_data@[self.current_byte as int],
            ChipState::Touch => self.touch_data@[self.current_byte as int],
        }
    }

    /// The chip after one read: the cursor moves on; at the end of the init
    /// buffer it wraps and the chip moves to the touch buffer; at the end of the
    /// touch buffer it wraps and stays there.
    pub open spec fn after_read(self) -> Chip {
        let next = self.current_byte + 1;
        if next < Self::buffer_len(self.chip_state) {
            Chip { current_byte: next as usize, ..self }
        } else {
            Chip { current_byte: 0, chip_state: ChipState::Touch, ..self }
        }
    }

    /// The chip is as set up at power-up on these pins: at the start of the init
    /// buffer, which holds three zero bytes, with the report of one finger held
    /// at the middle of the panel waiting behind it.
    pub open spec fn is_fresh(&self, pin_in: PinId, pin_out: PinId) -> bool {
        &&& self.pin_in == pin_in
        &&& self.pin_out == pin_out
        &&& self.chip_state == ChipState::Init
        &&& self.current_byte == 0
        &&& self.init_data@ == seq![0u8, 0u8, 0u8]
        &&& self.touch_data@ == touch_report_spec(SCREEN_WIDTH / 2, SCREEN_HEIGHT / 2)
    }

    /// A chip just set up on the given input and output pins.
    pub fn new(pin_in: PinId, pin_out: PinId) -> (c: Chip)
        ensures
            c.wf(),
            c.is_fresh(pin_in, pin_out),
    {
        let init_data: [u8; 3] = [0, 0, 0];
        assert(init_data@ =~= seq![0u8, 0u8, 0u8]);
        Chip {
            pin_in,
            pin_out,
            chip_state: ChipState::Init,
            init_data,
            touch_data: touch_report(SCREEN_WIDTH / 2, SCREEN_HEIGHT / 2),
            current_byte: 0,
        }
    }

    /// A bus master addressed the chip: the cursor goes back to the start of
    /// the active buffer, which stays the same.
    pub fn connect(&mut self)
        ensures
            *final(self) == (Chip { current_byte: 0, ..*old(self) }),
            final(self).wf(),
    {
        self.current_byte = 0;
    }

    /// Hands out the next byte of the active buffer and advances the cursor.
    pub fn read_byte(&mut self) -> (b: u8)
        requires
            old(self).wf(),
        ensures
            b == old(self).next_byte(),
            *final(self) == old(self).after_read(),
            final(self).wf(),
    {
        match self.chip_state {
            ChipState::Init => {
                let b = self.init_data[self.current_byte];
                self.current_byte = self.current_byte + 1;
                if self.current_byte >= INIT_LEN {
                    self.current_byte = 0;
                    self.chip_state = ChipState::Touch;
                }
                b
            },
            ChipState::Touch => {
                let b = self.touch_data[self.current_byte];
                self.current_byte = self.current_byte + 1;
                if self.current_byte >= TOUCH_LEN {
                    self.current_byte = 0;
                }
                b
            },
        }
    }
}

/// The bytes that `n` reads in a row hand out, starting from `c`.
pub open spec fn reads(c: Chip, n: nat) -> Seq<u8>
    decreases n,
{
    if n == 0 {
        Seq::empty()
    } else {
        seq![c.next_byte()] + reads(c.after_read(), (n - 1) as nat)
    }
}

/// The chip after `n` reads in a row, starting from `c`.
pub open spec fn advance(c: Chip, n: nat) -> Chip
    decreases n,
{
    if n == 0 {
        c
    } else {
        advance(c.after_read(), (n - 1) as nat)
    }
}

proof fn lemma_reads_snoc(c: Chip, n: nat)
    ensures
        reads(c, n + 1) == reads(c, n).push(advance(c, n).next_byte()),
        advance(c, n + 1) == advance(c, n).after_read(),
    decreases n,
{
    if n > 0 {
        let c2 = c.after_read();
        lemma_reads_snoc(c2, (n - 1) as nat);
        assert(reads(c, n + 1) =~= reads(c, n).push(advance(c, n).next_byte()));
    } else {
        assert(reads(c.after_read(), 0) == Seq::<u8>::empty());
        assert(reads(c, 1) =~= seq![c.next_byte()]);
        assert(advance(c.after_read(), 0) == c.after_read());
    }
}

/// Position of `c` in the stream of all bytes that a chip sends from
/// power-up on, counted with the touch report taken modulo its length.
pub open spec fn stream_pos(c: Chip) -> int {
    match c.chip_state {
        ChipState::Init => c.current_byte as int,
        ChipState::Touch => INIT_LEN + c.current_byte,
    }
}

/// Byte `p` of the stream: the init buffer once, then the touch report over
/// and over.
pub open spec fn stream_byte(init: Seq<u8>, touch: Seq<u8>, p: int) -> u8 {
    if p < INIT_LEN {
        init[p]
    } else {
        touch[(p - INIT_LEN) % (TOUCH_LEN as int)]
    }
}

proof fn lemma_reads_len(c: Chip, n: nat)
    ensures
        reads(c, n).len() == n,
    decreases n,
{
    if n > 0 {
        lemma_reads_len(c.after_read(), (n - 1) as nat);
    }
}

proof fn lemma_reads_index(c: Chip, n: nat, k: nat)
    requires
        c.wf(),
        k < n,
    ensures
        reads(c, n)[k as int] == stream_byte(c.init_data@, c.touch_data@, stream_pos(c) + k),
    decreases k,
{
    lemma_reads_len(c.after_read(), (n - 1) as nat);
    if k > 0 {
        let c2 = c.after_read();
        lemma_reads_index(c2, (n - 1) as nat, (k - 1) as nat);
        assert(reads(c, n)[k as int] == reads(c2, (n - 1) as nat)[k - 1]);
        let p = stream_pos(c) + k;
        let p2 = stream_pos(c2) + k - 1;
        assert(p2 == p || (p2 == p - TOUCH_LEN && p2 >= INIT_LEN));
        if p2 != p {
            assert((p - INIT_LEN) % 8 == (p2 - INIT_LEN) % 8);
        }
    }
}

/// From power-up, any run of reads hands out the init buffer in order and
/// then the touch report, repeating for as long as the reads go on.
pub proof fn lemma_read_sequence(c: Chip, n: nat)
    requires
        c.wf(),
        c.chip_state == ChipState::Init,
        c.current_byte == 0,
    ensures
        reads(c, n).len() == n,
        forall|k: int|
            0 <= k < n ==> #[trigger] reads(c, n)[k] == (if k < INIT_LEN {
                c.init_data@[k]
            } else {
                c.touch_data@[(k - INIT_LEN) % (TOUCH_LEN as int)]
            }),
{
    lemma_reads_len(c, n);
    assert forall|k: int| 0 <= k < n implies #[trigger] reads(c, n)[k] == (if k < INIT_LEN {
        c.init_data@[k]
    } else {
        c.touch_data@[(k - INIT_LEN) % (TOUCH_LEN as int)]
    }) by {
        lemma_reads_index(c, n, k as nat);
    }
}

impl Chip {
    /// Performs `n` reads in a row and returns the bytes in the order sent.
    pub fn read_bytes(&mut self, n: usize) -> (r: Vec<u8>)
        requires
            old(self).wf(),
        ensures
            r@ == reads(*old(self), n as nat),
            final(self).wf(),
    {
        let ghost start = *self;
        let mut r: Vec<u8> = Vec::new();
        let mut i: usize = 0;
        while i < n
            invariant
                i <= n,
                self.wf(),
                r@ == reads(start, i as nat),
                *self == advance(start, i as nat),
            decreases n - i,
        {
            proof {
                lemma_reads_snoc(start, i as nat);
            }
            let b = self.read_byte();
            r.push(b);
            i = i + 1;
        }
        r
    }
}

} // verus!
