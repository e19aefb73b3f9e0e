use auto_exposure::layout::{
    histogram_layout_entries, sequential, BindingKind, LayoutEntry, TextureDimension,
    HISTOGRAM_BUFFER_SIZE, PARAMETER_BLOCK_MIN_SIZE, RESULT_BUFFER_SIZE,
};
use auto_exposure::HISTOGRAM_BIN_COUNT;

#[test]
fn layout_has_eight_slots_in_order() {
    let entries = histogram_layout_entries(36, 48, 640);
    assert_eq!(entries.len(), 8);
    for (i, e) in entries.iter().enumerate() {
        assert_eq!(e.binding as usize, i);
    }
    assert_eq!(entries[0].kind, BindingKind::UniformBuffer { has_dynamic_offset: false, min_size: 36 });
    assert_eq!(entries[1].kind, BindingKind::Texture { dimension: TextureDimension::D2 });
    assert_eq!(entries[2].kind, BindingKind::Texture { dimension: TextureDimension::D2 });
    assert_eq!(entries[3].kind, BindingKind::Texture { dimension: TextureDimension::D1 });
    assert_eq!(entries[4].kind, BindingKind::UniformBuffer { has_dynamic_offset: false, min_size: 48 });
    assert_eq!(
        entries[5].kind,
        BindingKind::StorageBuffer { read_only: false, has_dynamic_offset: false, min_size: 256 }
    );
    assert_eq!(
        entries[6].kind,
        BindingKind::StorageBuffer { read_only: false, has_dynamic_offset: false, min_size: 4 }
    );
    assert_eq!(
        entries[7].kind,
        BindingKind::StorageBuffer { read_only: true, has_dynamic_offset: true, min_size: 640 }
    );
}

#[test]
fn buffer_sizes_match_bin_count() {
    assert_eq!(HISTOGRAM_BUFFER_SIZE, HISTOGRAM_BIN_COUNT * 4);
    assert_eq!(HISTOGRAM_BUFFER_SIZE, 256);
    assert_eq!(RESULT_BUFFER_SIZE, 4);
    assert_eq!(PARAMETER_BLOCK_MIN_SIZE, 9 * 4);
}

#[test]
fn sequential_numbers_from_zero() {
    let kinds = vec![
        BindingKind::Texture { dimension: TextureDimension::D1 },
        BindingKind::UniformBuffer { has_dynamic_offset: true, min_size: 8 },
    ];
    let entries = sequential(&kinds);
    assert_eq!(
        entries,
        vec![
            LayoutEntry { binding: 0, kind: kinds[0] },
            LayoutEntry { binding: 1, kind: kinds[1] },
        ]
    );
    assert!(sequential(&Vec::new()).is_empty());
}
