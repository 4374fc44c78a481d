//! The table of devices and transfers: its rows, the row that is selected,
//! and the share of the width that each column gets.

use vstd::prelude::*;
use crate::records::{Connection, Data, Device};
use crate::strings::str_eq;

verus! {

/// Lines of the screen that a row takes.
pub const ITEM_HEIGHT: usize = 2;

/// A row of the table.
#[derive(Debug, PartialEq, Eq)]
pub enum Item {
    Data(Data),
    Device(Device),
}

/// The row that is selected.
#[derive(Debug, PartialEq, Eq)]
pub enum SelectedItem<'a> {
    Data(&'a Data),
    Device(&'a Device),
}

/// The table.
#[derive(Debug, PartialEq, Eq)]
pub struct TableWidget {
    /// The row that is selected, if one is.
    pub selected: Option<usize>,
    pub items: Vec<Item>,
    /// For each column of a transfer, its share of the width, in percent.
    pub longest_item_lens: Vec<u16>,
    /// The line that the scroll bar points at.
    pub scroll_position: usize,
    pub help: bool,
    pub connection: bool,
    pub active: bool,
}

/// Number of columns that a text takes on a terminal, as `unicode-width`
/// counts them.
pub uninterp spec fn display_width(text: Seq<char>) -> nat;

/// The width of a text on a terminal. Calls `UnicodeWidthStr::width` of
/// `unicode-width`, which works the width out from the characters of the text
/// and its own tables. The result is a function of the text alone; the
/// contract gives it its name and says nothing more of it.
#[verifier::external_body]
fn text_width(text: &str) -> (r: usize)
    ensures
        r == display_width(text@),
{
    unicode_width::UnicodeWidthStr::width(text)
}

/// The widths of the four columns of one transfer.
pub struct Widths {
    pub name: usize,
    pub status: usize,
    pub destination: usize,
    pub time: usize,
}

impl Widths {
    pub open spec fn sum(self) -> nat {
        (self.name + self.status + self.destination + self.time) as nat
    }
}

/// The larger of two numbers.
pub open spec fn larger(a: nat, b: nat) -> nat {
    if a >= b {
        a
    } else {
        b
    }
}

/// The largest of what `pick` takes from each row; zero without rows.
pub open spec fn widest(rows: Seq<Widths>, pick: spec_fn(Widths) -> nat) -> nat
    decreases rows.len(),
{
    if rows.len() == 0 {
        0
    } else {
        larger(widest(rows.drop_last(), pick), pick(rows.last()))
    }
}

/// A column's share of the width in percent, rounded down; zero where the
/// rows have no width at all.
pub open spec fn share(column: nat, total: nat) -> nat {
    if total == 0 {
        0
    } else {
        column * 100 / total
    }
}

/// The shares of the four columns: the widest entry of each column, held
/// against the widest row.
pub open spec fn shares(rows: Seq<Widths>) -> Seq<nat> {
    let total = widest(rows, |w: Widths| w.sum());
    seq![
        share(widest(rows, |w: Widths| w.name as nat), total),
        share(widest(rows, |w: Widths| w.status as nat), total),
        share(widest(rows, |w: Widths| w.destination as nat), total),
        share(widest(rows, |w: Widths| w.time as nat), total),
    ]
}

/// The widths of the columns of a transfer.
pub open spec fn widths_of(data: Data) -> Widths {
    Widths {
        name: display_width(data.name@) as usize,
        status: display_width(data.status@) as usize,
        destination: display_width(data.destination@) as usize,
        time: display_width(data.time@) as usize,
    }
}

/// The transfers among the rows, in order.
pub open spec fn transfers(items: Seq<Item>) -> Seq<Data>
    decreases items.len(),
{
    if items.len() == 0 {
        Seq::empty()
    } else {
        match items.last() {
            Item::Data(d) => transfers(items.drop_last()).push(d),
            Item::Device(_) => transfers(items.drop_last()),
        }
    }
}

/// The widths of the transfers among the rows.
pub open spec fn transfer_widths(items: Seq<Item>) -> Seq<Widths> {
    Seq::new(transfers(items).len(), |i: int| widths_of(transfers(items)[i]))
}

pub open spec fn as_nats(v: Seq<u16>) -> Seq<nat> {
    Seq::new(v.len(), |i: int| v[i] as nat)
}

proof fn lemma_column_within_total(rows: Seq<Widths>, pick: spec_fn(Widths) -> nat)
    requires
        forall|w: Widths| #[trigger] pick(w) <= w.sum(),
    ensures
        widest(rows, pick) <= widest(rows, |w: Widths| w.sum()),
    decreases rows.len(),
{
    if rows.len() > 0 {
        lemma_column_within_total(rows.drop_last(), pick);
    }
}

fn percent(column: u128, total: u128) -> (r: u16)
    requires
        column <= total,
        total <= u128::MAX / 100,
    ensures
        r == share(column as nat, total as nat),
        r <= 100,
{
    if total == 0 {
        0
    } else {
        let p = column * 100 / total;
        assert((column as int) * 100 / (total as int) <= 100) by (nonlinear_arith)
            requires
                0 <= column <= total,
                total > 0,
        ;
        p as u16
    }
}

/// Measures the four columns of a transfer.
pub fn measure(data: &Data) -> (r: Widths)
    ensures
        r == widths_of(*data),
{
    Widths {
        name: text_width(data.name.as_str()),
        status: text_width(data.status.as_str()),
        destination: text_width(data.destination.as_str()),
        time: text_width(data.time.as_str()),
    }
}

/// The share of the width that each of the four columns gets, from the
/// widths of the rows.
pub fn constraint_len_calculator(rows: &Vec<Widths>) -> (r: Vec<u16>)
    ensures
        as_nats(r@) == shares(rows@),
{
    let mut total: u128 = 0;
    let mut name: u128 = 0;
    let mut status: u128 = 0;
    let mut destination: u128 = 0;
    let mut time: u128 = 0;
    let mut i: usize = 0;
    assert(rows@.take(0) =~= Seq::<Widths>::empty());
    while i < rows.len()
        invariant
            i <= rows@.len(),
            total == widest(rows@.take(i as int), |w: Widths| w.sum()),
            name == widest(rows@.take(i as int), |w: Widths| w.name as nat),
            status == widest(rows@.take(i as int), |w: Widths| w.status as nat),
            destination == widest(rows@.take(i as int), |w: Widths| w.destination as nat),
            time == widest(rows@.take(i as int), |w: Widths| w.time as nat),
            total <= 4 * usize::MAX,
        decreases rows@.len() - i,
    {
        let w = &rows[i];
        proof {
            let next = rows@.take(i + 1);
            assert(next.drop_last() =~= rows@.take(i as int));
            assert(next.last() == rows@[i as int]);
        }
        let sum = w.name as u128 + w.status as u128 + w.destination as u128 + w.time as u128;
        if sum > total {
            total = sum;
        }
        if w.name as u128 > name {
            name = w.name as u128;
        }
        if w.status as u128 > status {
            status = w.status as u128;
        }
        if w.destination as u128 > destination {
            destination = w.destination as u128;
        }
        if w.time as u128 > time {
            time = w.time as u128;
        }
        i += 1;
    }
    proof {
        assert(rows@.take(i as int) =~= rows@);
        lemma_column_within_total(rows@, |w: Widths| w.name as nat);
        lemma_column_within_total(rows@, |w: Widths| w.status as nat);
        lemma_column_within_total(rows@, |w: Widths| w.destination as nat);
        lemma_column_within_total(rows@, |w: Widths| w.time as nat);
    }
    let mut out: Vec<u16> = Vec::new();
    out.push(percent(name, total));
    out.push(percent(status, total));
    out.push(percent(destination, total));
    out.push(percent(time, total));
    assert(as_nats(out@) =~= shares(rows@));
    out
}

/// The files of the device that is selected, if a device is selected and
/// has files.
pub open spec fn selected_files(table: TableWidget) -> Option<Seq<Data>> {
    match table.selected {
        Some(i) if i < table.items@.len() => match table.items@[i as int] {
            Item::Device(device) => match device.files {
                Some(files) => Some(files@),
                None => None,
            },
            Item::Data(_) => None,
        },
        _ => None,
    }
}

/// The rows that stand for these files.
pub open spec fn rows_of(files: Seq<Data>) -> Seq<Item> {
    Seq::new(files.len(), |i: int| Item::Data(files[i]))
}

/// The place of the first row that is the device called `name`; the number
/// of rows where there is none.
pub open spec fn first_device(items: Seq<Item>, name: Seq<char>) -> int
    decreases items.len(),
{
    if items.len() == 0 {
        0
    } else if items[0] is Device && items[0]->Device_0.name@ == name {
        0
    } else {
        1 + first_device(items.skip(1), name)
    }
}

/// The device after a connection at `now` from the address `ip`.
pub open spec fn reconnected(device: Device, ip: String, total: String, date: String) -> Device {
    Device { ip, last_connection: Connection { total, format_date: date }, ..device }
}

fn copy_data(data: &Data) -> (r: Data)
    ensures
        r == *data,
{
    Data {
        name: data.name.clone(),
        status: data.status.clone(),
        destination: data.destination.clone(),
        time: data.time.clone(),
    }
}

fn copy_files(files: &Vec<Data>) -> (r: Vec<Data>)
    ensures
        r@ == files@,
{
    let mut out: Vec<Data> = Vec::new();
    let mut i: usize = 0;
    while i < files.len()
        invariant
            i <= files@.len(),
            out@ == files@.take(i as int),
        decreases files@.len() - i,
    {
        out.push(copy_data(&files[i]));
        assert(out@ =~= files@.take(i + 1));
        i += 1;
    }
    assert(files@.take(i as int) =~= files@);
    out
}

impl TableWidget {
    /// An empty table: no row, none selected, every share zero.
    pub fn new() -> (r: Self)
        ensures
            !r.active,
            !r.connection,
            !r.help,
            r.selected is None,
            r.items@.len() == 0,
            r.longest_item_lens@ == seq![0u16, 0u16, 0u16, 0u16],
            r.scroll_position == 0,
    {
        let mut lens: Vec<u16> = Vec::new();
        lens.push(0);
        lens.push(0);
        lens.push(0);
        lens.push(0);
        assert(lens@ =~= seq![0u16, 0u16, 0u16, 0u16]);
        Self {
            active: false,
            connection: false,
            selected: None,
            items: Vec::new(),
            longest_item_lens: lens,
            scroll_position: 0,
            help: false,
        }
    }

    /// The row that is selected, if one is and the table has it.
    pub fn enter(&self) -> (r: Option<SelectedItem<'_>>)
        ensures
            match self.selected {
                Some(i) if i < self.items@.len() => match self.items@[i as int] {
                    Item::Data(d) => r == Some(SelectedItem::Data(&d)),
                    Item::Device(d) => r == Some(SelectedItem::Device(&d)),
                },
                _ => r is None,
            },
    {
        match self.selected {
            Some(i) => {
                if i < self.items.len() {
                    match &self.items[i] {
                        Item::Data(data) => Some(SelectedItem::Data(data)),
                        Item::Device(device) => Some(SelectedItem::Device(device)),
                    }
                } else {
                    None
                }
            },
            None => None,
        }
    }

    /// The widths of the transfers among the rows.
    pub fn measure_transfers(&self) -> (r: Vec<Widths>)
        ensures
            r@ == transfer_widths(self.items@),
    {
        let mut out: Vec<Widths> = Vec::new();
        let mut i: usize = 0;
        let ghost items = self.items@;
        assert(items.take(0) =~= Seq::<Item>::empty());
        assert(out@ =~= transfer_widths(items.take(0)));
        while i < self.items.len()
            invariant
                i <= self.items@.len(),
                items == self.items@,
                out@ == transfer_widths(items.take(i as int)),
            decreases self.items@.len() - i,
        {
            proof {
                let next = items.take(i + 1);
                assert(next.drop_last() =~= items.take(i as int));
                assert(next.last() == items[i as int]);
            }
            match &self.items[i] {
                Item::Data(data) => {
                    let w = measure(data);
                    out.push(w);
                    assert(out@ =~= transfer_widths(items.take(i + 1)));
                },
                Item::Device(_) => {
                    assert(out@ =~= transfer_widths(items.take(i + 1)));
                },
            }
            i += 1;
        }
        assert(items.take(i as int) =~= items);
        out
    }

    /// Adds a transfer below the other rows and shares the width anew.
    pub fn add_item(&mut self, name: String, status: String, destination: String, time: String)
        ensures
            final(self).items@ == old(self).items@.push(
                Item::Data(Data { name, status, destination, time }),
            ),
            as_nats(final(self).longest_item_lens@) == shares(
                transfer_widths(final(self).items@),
            ),
            final(self).selected == old(self).selected,
            final(self).scroll_position == old(self).scroll_position,
            final(self).help == old(self).help,
            final(self).connection == old(self).connection,
            final(self).active == old(self).active,
    {
        self.items.push(Item::Data(Data { name, status, destination, time }));
        let rows = self.measure_transfers();
        self.longest_item_lens = constraint_len_calculator(&rows);
    }

    /// A copy of the files of the device that is selected.
    pub fn files_of_selected(&self) -> (r: Option<Vec<Data>>)
        ensures
            match r {
                Some(files) => selected_files(*self) == Some(files@),
                None => selected_files(*self) is None,
            },
    {
        match self.selected {
            Some(i) => {
                if i < self.items.len() {
                    match &self.items[i] {
                        Item::Device(device) => match &device.files {
                            Some(files) => Some(copy_files(files)),
                            None => None,
                        },
                        Item::Data(_) => None,
                    }
                } else {
                    None
                }
            },
            None => None,
        }
    }

    /// Opens the device that is selected: its files are added below the other
    /// rows, in order, and the width is shared anew.
    pub fn open_selected(&mut self)
        ensures
            match selected_files(*old(self)) {
                Some(files) => {
                    &&& final(self).items@ == old(self).items@ + rows_of(files)
                    &&& if files.len() > 0 {
                        as_nats(final(self).longest_item_lens@) == shares(
                            transfer_widths(final(self).items@),
                        )
                    } else {
                        final(self).longest_item_lens == old(self).longest_item_lens
                    }
                },
                None => {
                    &&& final(self).items == old(self).items
                    &&& final(self).longest_item_lens == old(self).longest_item_lens
                },
            },
            final(self).selected == old(self).selected,
            final(self).scroll_position == old(self).scroll_position,
            final(self).help == old(self).help,
            final(self).connection == old(self).connection,
            final(self).active == old(self).active,
    {
        match self.files_of_selected() {
            None => {},
            Some(mut files) => {
                let ghost all = files@;
                let mut i: usize = 0;
                let count = files.len();
                assert(old(self).items@ + rows_of(all.take(0)) =~= old(self).items@);
                while i < count
                    invariant
                        i <= count,
                        count == all.len(),
                        files@ == all.skip(i as int),
                        self.items@ == old(self).items@ + rows_of(all.take(i as int)),
                        i > 0 ==> as_nats(self.longest_item_lens@) == shares(
                            transfer_widths(self.items@),
                        ),
                        i == 0 ==> self.longest_item_lens == old(self).longest_item_lens,
                        self.selected == old(self).selected,
                        self.scroll_position == old(self).scroll_position,
                        self.help == old(self).help,
                        self.connection == old(self).connection,
                        self.active == old(self).active,
                    decreases count - i,
                {
                    let file = files.remove(0);
                    assert(file == all[i as int]);
                    assert(files@ =~= all.skip(i + 1));
                    self.add_item(file.name, file.status, file.destination, file.time);
                    assert(self.items@ =~= old(self).items@ + rows_of(all.take(i + 1)));
                    i += 1;
                }
                assert(all.take(i as int) =~= all);
            },
        }
    }

    /// The place of the first row that is the device called `name`.
    pub fn find_device(&self, name: &str) -> (r: usize)
        ensures
            r == first_device(self.items@, name@),
            r <= self.items@.len(),
            r < self.items@.len() ==> self.items@[r as int] is Device,
    {
        let mut i: usize = 0;
        assert(self.items@.skip(0) =~= self.items@);
        while i < self.items.len()
            invariant
                i <= self.items@.len(),
                first_device(self.items@, name@) == i + first_device(
                    self.items@.skip(i as int),
                    name@,
                ),
            decreases self.items@.len() - i,
        {
            let ghost rest = self.items@.skip(i as int);
            assert(rest[0] == self.items@[i as int]);
            match &self.items[i] {
                Item::Device(device) => {
                    if str_eq(device.name.as_str(), name) {
                        return i;
                    }
                },
                Item::Data(_) => {},
            }
            assert(rest.skip(1) =~= self.items@.skip(i + 1));
            i += 1;
        }
        i
    }

    /// Notes a connection with a device: the first row of that device gets
    /// the address and the time of `device`; where the table has no row of
    /// it, `device` becomes the last row.
    pub fn record_device(&mut self, device: Device)
        ensures
            ({
                let at = first_device(old(self).items@, device.name@);
                final(self).items@ == if at < old(self).items@.len() {
                    old(self).items@.update(
                        at,
                        Item::Device(
                            reconnected(
                                old(self).items@[at]->Device_0,
                                device.ip,
                                device.last_connection.total,
                                device.last_connection.format_date,
                            ),
                        ),
                    )
                } else {
                    old(self).items@.push(Item::Device(device))
                }
            }),
            final(self).selected == old(self).selected,
            final(self).longest_item_lens == old(self).longest_item_lens,
            final(self).scroll_position == old(self).scroll_position,
            final(self).help == old(self).help,
            final(self).connection == old(self).connection,
            final(self).active == old(self).active,
    {
        let at = self.find_device(device.name.as_str());
        if at < self.items.len() {
            let row = self.items.remove(at);
            match row {
                Item::Device(found) => {
                    let updated = Device {
                        name: found.name,
                        ip: device.ip,
                        last_transfer: found.last_transfer,
                        last_connection: device.last_connection,
                        files: found.files,
                    };
                    self.items.insert(at, Item::Device(updated));
                    assert(self.items@ =~= old(self).items@.update(
                        at as int,
                        Item::Device(updated),
                    ));
                },
                Item::Data(data) => {
                    self.items.insert(at, Item::Data(data));
                    assert(false);
                },
            }
        } else {
            self.items.push(Item::Device(device));
        }
    }

    /// The row below the one that is selected; from the last row, and with
    /// no row selected, the first.
    pub open spec fn row_below(selected: Option<usize>, rows: nat) -> nat {
        match selected {
            Some(i) => if i + 1 >= rows {
                0
            } else {
                (i + 1) as nat
            },
            None => 0,
        }
    }

    /// The row above the one that is selected; from the first row the last,
    /// and with no row selected, the first.
    pub open spec fn row_above(selected: Option<usize>, rows: nat) -> nat {
        match selected {
            Some(i) => if i == 0 {
                if rows == 0 {
                    0
                } else {
                    (rows - 1) as nat
                }
            } else {
                (i - 1) as nat
            },
            None => 0,
        }
    }

    /// The line that the scroll bar points at when a row is selected.
    pub open spec fn line_of(row: nat) -> nat {
        if row * ITEM_HEIGHT <= usize::MAX {
            (row * ITEM_HEIGHT) as nat
        } else {
            usize::MAX as nat
        }
    }

    fn select(&mut self, row: usize)
        ensures
            final(self).selected == Some(row),
            final(self).scroll_position == Self::line_of(row as nat),
            final(self).items == old(self).items,
            final(self).longest_item_lens == old(self).longest_item_lens,
            final(self).help == old(self).help,
            final(self).connection == old(self).connection,
            final(self).active == old(self).active,
    {
        self.selected = Some(row);
        self.scroll_position = if row <= usize::MAX / ITEM_HEIGHT {
            row * ITEM_HEIGHT
        } else {
            usize::MAX
        };
    }

    /// Selects the row below.
    pub fn next(&mut self)
        ensures
            final(self).selected == Some(
                Self::row_below(old(self).selected, old(self).items@.len()) as usize,
            ),
            final(self).scroll_position == Self::line_of(
                Self::row_below(old(self).selected, old(self).items@.len()),
            ),
            final(self).items == old(self).items,
            final(self).longest_item_lens == old(self).longest_item_lens,
            final(self).help == old(self).help,
            final(self).connection == old(self).connection,
            final(self).active == old(self).active,
    {
        let rows = self.items.len();
        let i = match self.selected {
            Some(i) => {
                if i >= rows || i + 1 >= rows {
                    0
                } else {
                    i + 1
                }
            },
            None => 0,
        };
        self.select(i);
    }

    /// Selects the row above.
    pub fn previous(&mut self)
        ensures
            final(self).selected == Some(
                Self::row_above(old(self).selected, old(self).items@.len()) as usize,
            ),
            final(self).scroll_position == Self::line_of(
                Self::row_above(old(self).selected, old(self).items@.len()),
            ),
            final(self).items == old(self).items,
            final(self).longest_item_lens == old(self).longest_item_lens,
            final(self).help == old(self).help,
            final(self).connection == old(self).connection,
            final(self).active == old(self).active,
    {
        let rows = self.items.len();
        let i = match self.selected {
            Some(i) => {
                if i == 0 {
                    if rows == 0 {
                        0
                    } else {
                        rows - 1
                    }
                } else {
                    i - 1
                }
            },
            None => 0,
        };
        self.select(i);
    }
}

} // verus!
