use diskscry::presentation::locale::Locale;
use diskscry::presentation::smart_catalog::{
    ata_attribute_name, CRYSTAL_DISK_INFO_REVISION, CRYSTAL_DISK_INFO_VERSION,
};

#[test]
fn generic_catalog_is_bilingual_and_revision_pinned() {
    assert_eq!(CRYSTAL_DISK_INFO_VERSION, "9.9.1");
    assert_eq!(CRYSTAL_DISK_INFO_REVISION.len(), 40);
    assert_eq!(
        ata_attribute_name(0x05, Locale::En),
        Some("Reallocated Sectors Count")
    );
    assert_eq!(
        ata_attribute_name(0x05, Locale::ZhCn),
        Some("重新分配扇区数")
    );
    assert_eq!(ata_attribute_name(0xAA, Locale::ZhCn), None);
}
