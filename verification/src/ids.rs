//! Identifiers of regions, panes and terminals.

use vstd::prelude::*;
use crate::text::{hex, hex_digits, hex_digits_are_unique, hexadecimal_reads_back, writes};

verus! {

/// Hands out consecutive numbers, from one, wrapping round at the end.
///
/// What one counter has handed out it hands out again only after wrapping
/// round. Numbers of two counters may agree.
#[derive(Debug)]
pub struct IdCounter {
    next: u64,
}

impl View for IdCounter {
    type V = u64;

    closed spec fn view(&self) -> u64 {
        self.next
    }
}

/// The number that follows `n` on a counter.
pub open spec fn following(n: u64) -> u64 {
    if n == u64::MAX {
        0
    } else {
        (n + 1) as u64
    }
}

impl IdCounter {
    pub fn new() -> (counter: IdCounter)
        ensures
            counter@ == 1,
    {
        IdCounter { next: 1 }
    }

    /// Take the next number.
    pub fn take(&mut self) -> (taken: u64)
        ensures
            taken == old(self)@,
            final(self)@ == following(old(self)@),
    {
        let taken: u64 = self.next;
        self.next = taken.wrapping_add(1);
        taken
    }
}

impl Default for IdCounter {
    fn default() -> (counter: IdCounter)
        ensures
            counter@ == 1,
    {
        IdCounter::new()
    }
}

/// The next numbers of the counters.
pub struct IdsView {
    pub region: u64,
    pub pane: u64,
    pub terminal: u64,
}

impl IdsView {
    /// After the identifiers of a pane and of its terminal are taken.
    pub open spec fn launching(self) -> IdsView {
        IdsView {
            pane: following(self.pane),
            terminal: following(self.terminal),
            ..self
        }
    }

    /// After the identifier of a region is taken.
    pub open spec fn identified(self) -> IdsView {
        IdsView { region: following(self.region), ..self }
    }
}

/// The counters that identifiers are drawn from.
///
/// One process has one set of them. All its sessions share it, and every
/// region, pane and terminal draws its identifier from here, the panes and
/// terminals outside regions too. So no two of a process share an identifier
/// until a counter has wrapped round.
#[derive(Debug)]
pub struct IdCounters {
    pub regions: IdCounter,
    pub panes: IdCounter,
    pub terminals: IdCounter,
}

impl View for IdCounters {
    type V = IdsView;

    open spec fn view(&self) -> IdsView {
        IdsView { region: self.regions@, pane: self.panes@, terminal: self.terminals@ }
    }
}

impl IdCounters {
    /// The counters of a process that has drawn no identifier yet.
    pub fn new() -> (ids: IdCounters)
        ensures
            ids@ == (IdsView { region: 1, pane: 1, terminal: 1 }),
    {
        IdCounters {
            regions: IdCounter::new(),
            panes: IdCounter::new(),
            terminals: IdCounter::new(),
        }
    }
}

/// Identifier of one pane, as the runtime reports it.
#[derive(Debug, Clone, Copy, PartialEq, Eq, Structural, PartialOrd, Ord, Hash)]
pub struct PaneId(pub u64);

impl PaneId {
    pub fn allocate(counter: &mut IdCounter) -> (id: PaneId)
        ensures
            id == PaneId(old(counter)@),
            final(counter)@ == following(old(counter)@),
    {
        PaneId(counter.take())
    }
}

/// Identifier of one terminal and of the program that runs in it.
#[derive(Debug, Clone, Copy, PartialEq, Eq, Structural, PartialOrd, Ord, Hash)]
pub struct TerminalId(pub u64);

impl TerminalId {
    pub fn allocate(counter: &mut IdCounter) -> (id: TerminalId)
        ensures
            id == TerminalId(old(counter)@),
            final(counter)@ == following(old(counter)@),
    {
        TerminalId(counter.take())
    }
}

/// Stable public identifier for one live region.
#[derive(Debug, PartialEq, Eq, PartialOrd, Ord, Hash)]
pub struct RegionId(String);

impl View for RegionId {
    type V = Seq<char>;

    closed spec fn view(&self) -> Seq<char> {
        self.0@
    }
}

/// The text of the region identifier made at `micros` with a counter's number.
pub open spec fn region_id_text(micros: u128, number: u64) -> Seq<char> {
    "region_"@ + hex_digits(micros as nat) + hex_digits(number as nat)
}

/// `std::time::SystemTime::elapsed`, on the Unix epoch: the whole microseconds
/// that the system clock shows since then, or `None` when it stands before it.
///
/// Nothing is claimed of the reading: it is whatever the clock says.
#[verifier::external_body]
fn clock_micros() -> (reading: Option<u128>) {
    match std::time::UNIX_EPOCH.elapsed() {
        Ok(elapsed) => Some(elapsed.as_micros()),
        Err(_) => None,
    }
}

impl RegionId {
    /// Make a fresh identifier from the clock and the counter.
    ///
    /// The clock's reading is open, so the text is known up to it.
    pub fn allocate(counter: &mut IdCounter) -> (id: RegionId)
        ensures
            exists|micros: u128| id@ == #[trigger] region_id_text(micros, old(counter)@),
            final(counter)@ == following(old(counter)@),
    {
        let reading = clock_micros();
        let number: u64 = counter.take();
        RegionId::at(reading, number)
    }

    /// The identifier for one clock reading and one number. A clock before the
    /// epoch counts as the epoch itself.
    pub fn at(reading: Option<u128>, number: u64) -> (id: RegionId)
        ensures
            id@ == region_id_text(
                match reading {
                    Some(micros) => micros,
                    None => 0,
                },
                number,
            ),
    {
        let micros: u128 = match reading {
            Some(micros) => micros,
            None => 0,
        };
        let mut text = "region_".to_owned();
        text.append(hex(micros).as_str());
        text.append(hex(number as u128).as_str());
        RegionId(text)
    }

    /// An identifier read back from its text.
    pub fn from_text(text: String) -> (id: RegionId)
        ensures
            id@ == text@,
    {
        RegionId(text)
    }

    pub fn as_str(&self) -> (text: &str)
        ensures
            text@ == self@,
    {
        self.0.as_str()
    }

    /// The identifier as shown to callers.
    pub fn to_string(&self) -> (text: String)
        ensures
            text@ == self@,
    {
        self.0.clone()
    }
}

impl Clone for RegionId {
    fn clone(&self) -> (copy: RegionId)
        ensures
            copy == *self,
    {
        RegionId(self.0.clone())
    }
}

/// Two identifiers made at one clock reading differ unless they were made with
/// the same number.
pub proof fn region_ids_of_one_moment_are_distinct(micros: u128, a: u64, b: u64)
    requires
        a != b,
    ensures
        region_id_text(micros, a) != region_id_text(micros, b),
{
    region_ids_are_distinct(micros, a, micros, b);
}

/// Two identifiers whose clock readings have equally many digits differ unless
/// both the reading and the number agree.
pub proof fn region_ids_are_distinct(micros_a: u128, a: u64, micros_b: u128, b: u64)
    requires
        hex_digits(micros_a as nat).len() == hex_digits(micros_b as nat).len(),
        micros_a != micros_b || a != b,
    ensures
        region_id_text(micros_a, a) != region_id_text(micros_b, b),
{
    let left = region_id_text(micros_a, a);
    let right = region_id_text(micros_b, b);
    if left == right {
        let prefix = "region_"@.len() as int;
        let middle = prefix + hex_digits(micros_a as nat).len();
        assert(left.subrange(prefix, middle) =~= hex_digits(micros_a as nat));
        assert(right.subrange(prefix, middle) =~= hex_digits(micros_b as nat));
        assert(left.subrange(middle, left.len() as int) =~= hex_digits(a as nat));
        assert(right.subrange(middle, right.len() as int) =~= hex_digits(b as nat));
        hex_digits_are_unique(micros_a as nat, micros_b as nat);
        hex_digits_are_unique(a as nat, b as nat);
    }
}

/// A region identifier is the word `region_`, the clock's reading and the
/// counter's number, both in hexadecimal.
pub proof fn a_region_id_writes_its_reading_and_its_number(micros: u128, number: u64)
    ensures
        ({
            let text = region_id_text(micros, number);
            let start = "region_"@.len() as int;
            &&& text.len() > start
            &&& text.take(start) == "region_"@
            &&& exists|middle: int|
                {
                    &&& start < middle < text.len()
                    &&& writes(#[trigger] text.subrange(start, middle), micros as nat, 16)
                    &&& writes(text.skip(middle), number as nat, 16)
                }
        }),
{
    let text = region_id_text(micros, number);
    let start = "region_"@.len() as int;
    let middle = start + hex_digits(micros as nat).len();
    hexadecimal_reads_back(micros as nat);
    hexadecimal_reads_back(number as nat);
    assert(text.take(start) =~= "region_"@);
    assert(text.subrange(start, middle) =~= hex_digits(micros as nat));
    assert(text.skip(middle) =~= hex_digits(number as nat));
}

/// A counter hands out every number in turn, and starts again behind the last.
pub proof fn a_counter_leaves_no_number_out(n: u64)
    ensures
        n < u64::MAX ==> following(n) == n + 1,
        n == u64::MAX ==> following(n) == 0,
{
}

/// A launch takes one pane's and one terminal's identifier, and no region's; a
/// region that is opened takes one region's, and no other.
pub proof fn identifiers_are_taken_one_by_one(ids: IdsView)
    ensures
        ids.launching().region == ids.region,
        ids.pane < u64::MAX ==> ids.launching().pane == ids.pane + 1,
        ids.terminal < u64::MAX ==> ids.launching().terminal == ids.terminal + 1,
        ids.region < u64::MAX ==> ids.identified().region == ids.region + 1,
        ids.identified().pane == ids.pane,
        ids.identified().terminal == ids.terminal,
{
}

} // verus!
