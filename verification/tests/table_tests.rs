use zync::records::{Connection, Data, Device, Transfer};
use zync::table::{constraint_len_calculator, measure, Item, SelectedItem, TableWidget, Widths};

fn data(name: &str, status: &str, destination: &str, time: &str) -> Data {
    Data {
        name: name.to_string(),
        status: status.to_string(),
        destination: destination.to_string(),
        time: time.to_string(),
    }
}

fn device(name: &str, files: Option<Vec<Data>>) -> Device {
    Device {
        name: name.to_string(),
        ip: "10.0.0.1".to_string(),
        last_transfer: Transfer {
            status: "done".to_string(),
            size: "1".to_string(),
            name: "a".to_string(),
        },
        last_connection: Connection { total: "t".to_string(), format_date: "d".to_string() },
        files,
    }
}

#[test]
fn a_new_table_is_empty() {
    let table = TableWidget::new();
    assert_eq!(table.items.len(), 0);
    assert_eq!(table.selected, None);
    assert_eq!(table.longest_item_lens, vec![0, 0, 0, 0]);
    assert!(!table.help && !table.connection && !table.active);
    assert_eq!(table.enter(), None);
}

#[test]
fn widths_are_counted_in_columns_of_the_terminal() {
    let w = measure(&data("abc", "", "\u{65e5}\u{672c}", "e\u{301}"));
    assert_eq!(w.name, 3);
    assert_eq!(w.status, 0);
    assert_eq!(w.destination, 4);
    assert_eq!(w.time, 1);
}

#[test]
fn each_column_gets_its_share_of_the_widest_row() {
    let rows = vec![
        Widths { name: 10, status: 5, destination: 20, time: 5 },
        Widths { name: 4, status: 8, destination: 2, time: 1 },
    ];
    assert_eq!(constraint_len_calculator(&rows), vec![25, 20, 50, 12]);
}

#[test]
fn rows_without_width_share_nothing() {
    assert_eq!(constraint_len_calculator(&Vec::new()), vec![0, 0, 0, 0]);
    let rows = vec![Widths { name: 0, status: 0, destination: 0, time: 0 }];
    assert_eq!(constraint_len_calculator(&rows), vec![0, 0, 0, 0]);
}

#[test]
fn the_largest_widths_are_shared_without_overflow() {
    let rows = vec![Widths {
        name: usize::MAX,
        status: usize::MAX,
        destination: usize::MAX,
        time: usize::MAX,
    }];
    assert_eq!(constraint_len_calculator(&rows), vec![25, 25, 25, 25]);
}

#[test]
fn an_added_transfer_shares_the_width_anew() {
    let mut table = TableWidget::new();
    table.add_item("abcd".to_string(), "ok".to_string(), "dest".to_string(), "".to_string());
    assert_eq!(table.items, vec![Item::Data(data("abcd", "ok", "dest", ""))]);
    assert_eq!(table.longest_item_lens, vec![40, 20, 40, 0]);
    table.add_item(
        "\u{65e5}\u{672c}\u{8a9e}\u{65e5}\u{672c}".to_string(),
        "".to_string(),
        "".to_string(),
        "".to_string(),
    );
    assert_eq!(table.longest_item_lens, vec![100, 20, 40, 0]);
}

#[test]
fn the_selection_moves_round_the_rows() {
    let mut table = TableWidget::new();
    for name in ["a", "b", "c"] {
        table.items.push(Item::Device(device(name, None)));
    }
    table.next();
    assert_eq!(table.selected, Some(0));
    assert_eq!(table.scroll_position, 0);
    table.next();
    assert_eq!(table.selected, Some(1));
    assert_eq!(table.scroll_position, 2);
    table.next();
    table.next();
    assert_eq!(table.selected, Some(0));
    table.previous();
    assert_eq!(table.selected, Some(2));
    assert_eq!(table.scroll_position, 4);
    table.previous();
    assert_eq!(table.selected, Some(1));
}

#[test]
fn the_selection_of_an_empty_table_is_the_first_row() {
    let mut table = TableWidget::new();
    table.previous();
    assert_eq!(table.selected, Some(0));
    table.previous();
    assert_eq!(table.selected, Some(0));
    table.next();
    assert_eq!(table.selected, Some(0));
    assert_eq!(table.enter(), None);
}

#[test]
fn enter_gives_the_selected_row() {
    let mut table = TableWidget::new();
    table.items.push(Item::Device(device("a", None)));
    table.items.push(Item::Data(data("f", "s", "d", "t")));
    table.selected = Some(0);
    assert_eq!(table.enter(), Some(SelectedItem::Device(&device("a", None))));
    table.selected = Some(1);
    assert_eq!(table.enter(), Some(SelectedItem::Data(&data("f", "s", "d", "t"))));
    table.selected = Some(2);
    assert_eq!(table.enter(), None);
}

#[test]
fn opening_a_device_adds_its_files() {
    let files = vec![data("one", "ok", "x", "1"), data("three", "ok", "y", "2")];
    let mut table = TableWidget::new();
    table.items.push(Item::Device(device("a", Some(files.clone()))));
    table.selected = Some(0);
    assert_eq!(table.files_of_selected(), Some(files.clone()));
    table.open_selected();
    assert_eq!(
        table.items,
        vec![
            Item::Device(device("a", Some(files.clone()))),
            Item::Data(files[0].clone()),
            Item::Data(files[1].clone()),
        ]
    );
    assert_eq!(table.longest_item_lens, vec![55, 22, 11, 11]);
    assert_eq!(table.selected, Some(0));
}

#[test]
fn opening_a_device_without_files_changes_nothing() {
    let mut table = TableWidget::new();
    table.items.push(Item::Device(device("a", None)));
    table.selected = Some(0);
    table.open_selected();
    assert_eq!(table.items.len(), 1);
    assert_eq!(table.longest_item_lens, vec![0, 0, 0, 0]);
    table.selected = None;
    table.open_selected();
    assert_eq!(table.items.len(), 1);
}

#[test]
fn a_connection_is_noted_on_the_row_of_the_device() {
    let mut table = TableWidget::new();
    table.items.push(Item::Data(data("bob", "s", "d", "t")));
    table.items.push(Item::Device(device("alice", None)));
    table.items.push(Item::Device(device("bob", Some(vec![data("f", "s", "d", "t")]))));
    assert_eq!(table.find_device("bob"), 2);
    assert_eq!(table.find_device("carol"), 3);
    let mut seen = device("bob", None);
    seen.ip = "10.0.0.9".to_string();
    seen.last_connection =
        Connection { total: "now".to_string(), format_date: "now".to_string() };
    table.record_device(seen);
    assert_eq!(table.items.len(), 3);
    let mut expected = device("bob", Some(vec![data("f", "s", "d", "t")]));
    expected.ip = "10.0.0.9".to_string();
    expected.last_connection =
        Connection { total: "now".to_string(), format_date: "now".to_string() };
    assert_eq!(table.items[2], Item::Device(expected));
    table.record_device(device("carol", None));
    assert_eq!(table.items.len(), 4);
    assert_eq!(table.items[3], Item::Device(device("carol", None)));
}
