use lon::{ColorFamily, ColorLibrary, InfiniteListModel, SortOrder};

#[test]
fn model_of_five_repeated_a_thousand_times() {
    let m = InfiniteListModel::new(vec![10u32, 11, 12, 13, 14], 1000);
    assert_eq!(m.real_count(), 5);
    assert_eq!(m.n_items(), 5000);
    assert_eq!(m.item(0), Some(&10));
    assert_eq!(m.item(5), Some(&10));
    assert_eq!(m.item(5003), Some(&13));
    assert_eq!(m.middle_position(), 2500);
    assert_eq!(m.item(2500), Some(&10));
    assert_eq!(m.item(u32::MAX), Some(&10));
}

#[test]
fn model_of_empty_backing() {
    let m: InfiniteListModel<u32> = InfiniteListModel::new(Vec::new(), 1000);
    assert_eq!(m.n_items(), 0);
    assert_eq!(m.middle_position(), 0);
    for p in [0u32, 1, 5, 2500, u32::MAX] {
        assert_eq!(m.item(p), None);
    }
}

#[test]
fn model_count_saturates() {
    let m = InfiniteListModel::new(vec![1u8, 2, 3], u32::MAX);
    assert_eq!(m.n_items(), u32::MAX);
    assert_eq!(m.middle_position(), u32::MAX);
    let one = InfiniteListModel::new(vec![7u8], 3);
    assert_eq!(one.n_items(), 3);
    assert_eq!(one.middle_position(), 1);
}

#[test]
fn names_of_families_libraries_and_orders() {
    assert_eq!(ColorFamily::all().len(), 10);
    assert_eq!(ColorFamily::all()[0], ColorFamily::Red);
    assert_eq!(ColorFamily::all()[9], ColorFamily::Neutral);
    assert_eq!(ColorFamily::Brown.display_name(), "Brown");
    assert_eq!(ColorFamily::Cyan.display_name(), "Cyan");
    assert_eq!(ColorLibrary::all(), &[ColorLibrary::FashionHomeTcx, ColorLibrary::SolidCoated]);
    assert_eq!(ColorLibrary::FashionHomeTcx.display_name(), "Fashion, Home + Interiors (TCX)");
    assert_eq!(ColorLibrary::FashionHomeTcx.short_name(), "TCX");
    assert_eq!(ColorLibrary::SolidCoated.short_name(), "Solid Coated");
    assert_eq!(SortOrder::all().len(), 4);
    assert_eq!(SortOrder::Saturation.display_name(), "Saturation");
    assert_eq!(ColorLibrary::default(), ColorLibrary::FashionHomeTcx);
    assert_eq!(ColorFamily::default(), ColorFamily::Red);
    assert_eq!(SortOrder::default(), SortOrder::Name);
}

#[test]
fn model_follows_a_growing_backing() {
    let mut m: InfiniteListModel<u32> = InfiniteListModel::new(Vec::new(), 10);
    assert_eq!(m.n_items(), 0);
    assert_eq!(m.item(3), None);
    m.push(7);
    assert_eq!(m.real_count(), 1);
    assert_eq!(m.n_items(), 10);
    assert_eq!(m.item(3), Some(&7));
    m.push(8);
    assert_eq!(m.n_items(), 20);
    assert_eq!(m.item(3), Some(&8));
    assert_eq!(m.middle_position(), 10);
    assert_eq!(m.item(m.middle_position()), Some(&7));
}
