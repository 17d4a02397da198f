//! The symbol table of a file: named addresses kept in ascending order, and
//! the lookup of the symbol that encloses an offset.

use crate::bin_file::IoError;
use crate::map_text::{decoded_lines, read_line, scan_line, Line, MapLine, Symbol, SymbolEntry};
use crate::text::chars_of;
use vstd::prelude::*;

verus! {

/// What to do with a line that is neither blank nor a record.
#[derive(Clone, Copy, Debug, PartialEq, Eq, Structural)]
pub enum ParsePolicy {
    /// The first such line fails the whole parse.
    FailOnMalformed,
    /// Such lines are passed over.
    SkipMalformed,
}

/// A line of a map that could not be read. Lines are counted from one.
#[derive(Clone, Copy, Debug, PartialEq, Eq, Structural)]
pub struct ParseError {
    pub line: usize,
}

/// Why a map could not be loaded.
#[derive(Clone, Copy, Debug, PartialEq, Eq, Structural)]
pub enum MapError {
    Io(IoError),
    Parse(ParseError),
}

/// Addresses never go down along the table.
pub open spec fn sorted_by_address(t: Seq<Symbol>) -> bool {
    forall|i: int, j: int| 0 <= i <= j < t.len() ==> t[i].address <= t[j].address
}

/// How many entries of `t` start at or before `address`.
pub open spec fn rank(t: Seq<Symbol>, address: usize) -> nat
    decreases t.len(),
{
    if t.len() == 0 {
        0
    } else {
        rank(t.drop_last(), address) + if t.last().address <= address {
            1nat
        } else {
            0nat
        }
    }
}

/// The table with one more symbol, placed behind every entry that starts at
/// or before it.
pub open spec fn with_symbol(t: Seq<Symbol>, s: Symbol) -> Seq<Symbol> {
    t.insert(rank(t, s.address) as int, s)
}

/// The table that a run of lines builds, or the first line that stops it.
pub open spec fn table_of(lines: Seq<Line>, policy: ParsePolicy) -> Result<Seq<Symbol>, ParseError>
    decreases lines.len(),
{
    if lines.len() == 0 {
        Ok(Seq::empty())
    } else {
        match table_of(lines.drop_last(), policy) {
            Err(e) => Err(e),
            Ok(t) => match lines.last() {
                Line::Blank => Ok(t),
                Line::Record(s) => Ok(with_symbol(t, s)),
                Line::Malformed => if policy == ParsePolicy::SkipMalformed {
                    Ok(t)
                } else {
                    Err(ParseError { line: lines.len() as usize })
                },
            },
        }
    }
}

/// The table that a map text describes.
pub open spec fn parsed_table(text: Seq<char>, policy: ParsePolicy) -> Result<
    Seq<Symbol>,
    ParseError,
> {
    table_of(decoded_lines(text, 0), policy)
}

/// The symbol that encloses `start`: the last entry that starts at or before
/// it, with the distance from that entry's address.
pub open spec fn floor_symbol(t: Seq<Symbol>, start: usize) -> Option<(Symbol, usize)> {
    let r = rank(t, start);
    if r == 0 {
        None
    } else {
        Some((t[r - 1], (start - t[r - 1].address) as usize))
    }
}

/// In a sorted table the rank of an address is the one index that parts the
/// entries at or before it from those after it.
pub proof fn lemma_rank_parts(t: Seq<Symbol>, address: usize, p: int)
    requires
        0 <= p <= t.len(),
        forall|i: int| 0 <= i < p ==> (#[trigger] t[i]).address <= address,
        forall|i: int| p <= i < t.len() ==> (#[trigger] t[i]).address > address,
    ensures
        rank(t, address) == p,
    decreases t.len(),
{
    if t.len() > 0 {
        let rest = t.drop_last();
        if p == t.len() {
            assert(t.last() == t[p - 1]);
            lemma_rank_parts(rest, address, p - 1);
        } else {
            assert(t.last() == t[t.len() - 1]);
            lemma_rank_parts(rest, address, p);
        }
    }
}

/// The rank never passes the length, and in a sorted table it parts the
/// entries at or before the address from those after it.
pub proof fn lemma_rank_of_sorted(t: Seq<Symbol>, address: usize)
    requires
        sorted_by_address(t),
    ensures
        rank(t, address) <= t.len(),
        forall|i: int| 0 <= i < rank(t, address) ==> (#[trigger] t[i]).address <= address,
        forall|i: int| rank(t, address) <= i < t.len() ==> (#[trigger] t[i]).address > address,
    decreases t.len(),
{
    if t.len() > 0 {
        let rest = t.drop_last();
        assert(sorted_by_address(rest));
        lemma_rank_of_sorted(rest, address);
        if t.last().address <= address {
            assert forall|i: int| 0 <= i < t.len() implies (#[trigger] t[i]).address
                <= address by {
                assert(t[i].address <= t[t.len() - 1].address);
            }
            lemma_rank_parts(t, address, t.len() as int);
        } else {
            assert forall|i: int| 0 <= i < rank(t, address) implies (#[trigger] t[i]).address
                <= address by {
                assert(rest[i] == t[i]);
            }
            assert forall|i: int| rank(t, address) <= i < t.len() implies (#[trigger] t[i]).address
                > address by {
                if i < rest.len() {
                    assert(rest[i] == t[i]);
                }
            }
        }
    }
}

/// Adding a symbol to a sorted table leaves it sorted.
pub proof fn lemma_with_symbol_sorted(t: Seq<Symbol>, s: Symbol)
    requires
        sorted_by_address(t),
    ensures
        sorted_by_address(with_symbol(t, s)),
        with_symbol(t, s).len() == t.len() + 1,
{
    lemma_rank_of_sorted(t, s.address);
    let p = rank(t, s.address) as int;
    let u = with_symbol(t, s);
    assert forall|i: int, j: int| 0 <= i <= j < u.len() implies u[i].address <= u[j].address by {
        if i < p {
            assert(u[i] == t[i]);
        } else if i > p {
            assert(u[i] == t[i - 1]);
        }
        if j < p {
            assert(u[j] == t[j]);
        } else if j > p {
            assert(u[j] == t[j - 1]);
        }
    }
}

/// Whatever lines there are, the table they build is sorted.
pub proof fn lemma_table_of_sorted(lines: Seq<Line>, policy: ParsePolicy)
    ensures
        table_of(lines, policy) is Ok ==> sorted_by_address(table_of(lines, policy)->Ok_0),
    decreases lines.len(),
{
    if lines.len() > 0 {
        lemma_table_of_sorted(lines.drop_last(), policy);
        match table_of(lines.drop_last(), policy) {
            Ok(t) => match lines.last() {
                Line::Record(s) => {
                    lemma_with_symbol_sorted(t, s);
                },
                _ => {},
            },
            Err(_) => {},
        }
    }
}

/// Once a line has stopped the parse, the lines after it change nothing.
pub proof fn lemma_error_stands(done: Seq<Line>, rest: Seq<Line>, policy: ParsePolicy)
    requires
        table_of(done, policy) is Err,
    ensures
        table_of(done + rest, policy) == table_of(done, policy),
    decreases rest.len(),
{
    if rest.len() == 0 {
        assert(done + rest == done);
    } else {
        lemma_error_stands(done, rest.drop_last(), policy);
        assert((done + rest).drop_last() == done + rest.drop_last());
    }
}

/// The entries as the contracts see them.
pub open spec fn symbols_of(entries: Seq<SymbolEntry>) -> Seq<Symbol> {
    Seq::new(entries.len(), |i: int| entries[i]@)
}

/// Named addresses in ascending order of address. Entries with the same
/// address stay in the order in which they were added.
#[derive(Debug)]
pub struct SymbolTable {
    entries: Vec<SymbolEntry>,
}

impl View for SymbolTable {
    type V = Seq<Symbol>;

    closed spec fn view(&self) -> Seq<Symbol> {
        symbols_of(self.entries@)
    }
}

impl SymbolTable {
    #[verifier::type_invariant]
    spec fn ordered(&self) -> bool {
        sorted_by_address(self@)
    }

    /// The table without entries.
    pub fn new() -> (r: Self)
        ensures
            r@ == Seq::<Symbol>::empty(),
    {
        let r = SymbolTable { entries: Vec::new() };
        assert(r@ =~= Seq::<Symbol>::empty());
        r
    }

    /// Number of entries.
    pub fn len(&self) -> (r: usize)
        ensures
            r == self@.len(),
            sorted_by_address(self@),
    {
        proof {
            use_type_invariant(self);
        }
        self.entries.len()
    }

    /// The entry at `index`, counted in ascending order of address.
    pub fn entry(&self, index: usize) -> (r: &SymbolEntry)
        requires
            index < self@.len(),
        ensures
            r@ == self@[index as int],
    {
        &self.entries[index]
    }

    /// The number of entries that start at or before `address`.
    fn upper_bound(&self, address: usize) -> (p: usize)
        ensures
            p == rank(self@, address),
            p <= self@.len(),
            sorted_by_address(self@),
    {
        proof {
            use_type_invariant(self);
        }
        let mut lo: usize = 0;
        let mut hi: usize = self.entries.len();
        while lo < hi
            invariant
                lo <= hi <= self.entries@.len(),
                self@.len() == self.entries@.len(),
                sorted_by_address(self@),
                forall|i: int| 0 <= i < lo ==> (#[trigger] self@[i]).address <= address,
                forall|i: int| hi <= i < self@.len() ==> (#[trigger] self@[i]).address > address,
            decreases hi - lo,
        {
            let mid: usize = lo + (hi - lo) / 2;
            assert(self@[mid as int].address == self.entries@[mid as int].address);
            if self.entries[mid].address <= address {
                assert forall|i: int| 0 <= i < mid + 1 implies (#[trigger] self@[i]).address
                    <= address by {
                    assert(self@[i].address <= self@[mid as int].address);
                }
                lo = mid + 1;
            } else {
                assert forall|i: int| mid <= i < self@.len() implies (#[trigger] self@[i]).address
                    > address by {
                    assert(self@[mid as int].address <= self@[i].address);
                }
                hi = mid;
            }
        }
        proof {
            lemma_rank_parts(self@, address, lo as int);
        }
        lo
    }

    /// Adds an entry, behind every entry that starts at or before it.
    pub fn insert(&mut self, entry: SymbolEntry)
        ensures
            final(self)@ == with_symbol(old(self)@, entry@),
            sorted_by_address(final(self)@),
    {
        let p = self.upper_bound(entry.address);
        let ghost before = self@;
        let ghost symbol = entry@;
        proof {
            lemma_with_symbol_sorted(before, symbol);
        }
        let mut entries: Vec<SymbolEntry> = Vec::new();
        std::mem::swap(&mut self.entries, &mut entries);
        entries.insert(p, entry);
        assert(symbols_of(entries@) =~= with_symbol(before, symbol));
        std::mem::swap(&mut self.entries, &mut entries);
    }

    /// Reads a map. Every record becomes an entry; blank lines are passed
    /// over; a malformed line is passed over or fails the parse with its line
    /// number, as `policy` says.
    pub fn parse(text: &str, policy: ParsePolicy) -> (r: Result<SymbolTable, ParseError>)
        ensures
            match parsed_table(text@, policy) {
                Ok(t) => r is Ok && r->Ok_0@ == t && sorted_by_address(t),
                Err(e) => r == Err::<SymbolTable, ParseError>(e),
            },
    {
        let chars = chars_of(text);
        let mut table = SymbolTable::new();
        let mut i: usize = 0;
        let mut line_no: usize = 0;
        let ghost mut done: Seq<Line> = Seq::empty();
        while i < chars.len()
            invariant
                chars@ == text@,
                i <= chars.len(),
                line_no <= i,
                done.len() == line_no,
                decoded_lines(chars@, 0) == done + decoded_lines(chars@, i as int),
                table_of(done, policy) == Ok::<Seq<Symbol>, ParseError>(table@),
            decreases chars.len() - i,
        {
            let e = scan_line(&chars, i);
            let line = read_line(&chars, i, e);
            let ghost rest = decoded_lines(chars@, e + 1);
            let ghost next = done.push(line@);
            proof {
                assert(next.drop_last() == done);
                assert(done + decoded_lines(chars@, i as int) == next + rest);
            }
            line_no += 1;
            match line {
                MapLine::Blank => {},
                MapLine::Record(entry) => {
                    table.insert(entry);
                },
                MapLine::Malformed => {
                    match policy {
                        ParsePolicy::FailOnMalformed => {
                            proof {
                                lemma_error_stands(next, rest, policy);
                            }
                            return Err(ParseError { line: line_no });
                        },
                        ParsePolicy::SkipMalformed => {},
                    }
                },
            }
            proof {
                done = next;
            }
            i = if e < chars.len() {
                e + 1
            } else {
                e
            };
        }
        proof {
            assert(done + decoded_lines(chars@, i as int) == done);
            lemma_table_of_sorted(done, policy);
        }
        Ok(table)
    }

    /// Looks up the symbol that encloses `start`: the entry with the greatest
    /// address at or before `start` (the last of them, if several share that
    /// address), and how far `start` lies behind that address. There is none
    /// when `start` lies before every entry. `end_exclusive` takes no part.
    pub fn get_entry(&self, start: usize, end_exclusive: usize) -> (r: Option<(&SymbolEntry, usize)>)
        ensures
            match r {
                Some((entry, offset)) => floor_symbol(self@, start) == Some((entry@, offset)),
                None => floor_symbol(self@, start) is None,
            },
            r is None <==> forall|i: int| 0 <= i < self@.len() ==> (#[trigger] self@[i]).address > start,
            r is Some ==> {
                let (entry, offset) = r->Some_0;
                &&& entry.address <= start
                &&& offset == start - entry.address
                &&& exists|i: int| 0 <= i < self@.len() && self@[i] == entry@
                &&& forall|i: int| 0 <= i < self@.len() && (#[trigger] self@[i]).address <= start
                    ==> self@[i].address <= entry.address
            },
    {
        let p = self.upper_bound(start);
        proof {
            lemma_rank_of_sorted(self@, start);
        }
        if p == 0 {
            None
        } else {
            let entry = &self.entries[p - 1];
            assert(entry@ == self@[p - 1]);
            Some((entry, start - entry.address))
        }
    }
}

/// A symbol map on disk: where it lies, the table read from it, and the flag
/// a watcher raises when it changes.
#[derive(Debug)]
pub struct MapFile {
    pub path: String,
    pub table: SymbolTable,
    pub policy: ParsePolicy,
    pub modified: bool,
}

impl MapFile {
    /// Makes a map from the outcome of reading `path`. A failed read and a
    /// failed parse both give an error and no map.
    pub fn load(path: String, read: Result<String, IoError>, policy: ParsePolicy) -> (r: Result<
        MapFile,
        MapError,
    >)
        ensures
            match read {
                Err(e) => r == Err::<MapFile, MapError>(MapError::Io(e)),
                Ok(text) => match parsed_table(text@, policy) {
                    Ok(t) => r is Ok && r->Ok_0.table@ == t && r->Ok_0.path == path
                        && r->Ok_0.policy == policy && !r->Ok_0.modified,
                    Err(e) => r == Err::<MapFile, MapError>(MapError::Parse(e)),
                },
            },
    {
        match read {
            Err(e) => Err(MapError::Io(e)),
            Ok(text) => match SymbolTable::parse(text.as_str(), policy) {
                Ok(table) => Ok(MapFile { path, table, policy, modified: false }),
                Err(e) => Err(MapError::Parse(e)),
            },
        }
    }

    /// Takes the outcome of reading the map again. Only a text that parses
    /// replaces the table; after a failed read or a failed parse the earlier
    /// table stands and the error is returned.
    pub fn reload(&mut self, read: Result<String, IoError>) -> (r: Result<(), MapError>)
        ensures
            final(self).path == old(self).path,
            final(self).policy == old(self).policy,
            final(self).modified == old(self).modified,
            match read {
                Err(e) => r == Err::<(), MapError>(MapError::Io(e)) && final(self).table == old(
                    self,
                ).table,
                Ok(text) => match parsed_table(text@, old(self).policy) {
                    Ok(t) => r is Ok && final(self).table@ == t,
                    Err(e) => r == Err::<(), MapError>(MapError::Parse(e)) && final(self).table
                        == old(self).table,
                },
            },
    {
        match read {
            Err(e) => Err(MapError::Io(e)),
            Ok(text) => match SymbolTable::parse(text.as_str(), self.policy) {
                Ok(table) => {
                    self.table = table;
                    Ok(())
                },
                Err(e) => Err(MapError::Parse(e)),
            },
        }
    }

    /// The symbol that encloses `start`, as `SymbolTable::get_entry` finds it.
    pub fn get_entry(&self, start: usize, end_exclusive: usize) -> (r: Option<
        (&SymbolEntry, usize),
    >)
        ensures
            match r {
                Some((entry, offset)) => floor_symbol(self.table@, start) == Some(
                    (entry@, offset),
                ),
                None => floor_symbol(self.table@, start) is None,
            },
    {
        self.table.get_entry(start, end_exclusive)
    }

    /// Records that the map changed on disk.
    pub fn mark_modified(&mut self)
        ensures
            *final(self) == (MapFile { modified: true, ..*old(self) }),
    {
        self.modified = true;
    }

    /// Reads the change flag and lowers it.
    pub fn take_modified(&mut self) -> (r: bool)
        ensures
            r == old(self).modified,
            *final(self) == (MapFile { modified: false, ..*old(self) }),
    {
        let was = self.modified;
        self.modified = false;
        was
    }
}

} // verus!
