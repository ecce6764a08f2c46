use lamlock::auxv::Auxv;
use lamlock::auxv::AuxvEntry;
use lamlock::auxv::AT_NULL;
use lamlock::auxv::AT_PAGESZ;
use lamlock::auxv::AT_SYSINFO_EHDR;

const AT_RANDOM: u64 = 25;

fn vector() -> Auxv {
    let mut entries = vec![
        AuxvEntry { key: AT_SYSINFO_EHDR, value: 0x7fff_0000 },
        AuxvEntry { key: 16, value: 0xbfeb_fbff },
        AuxvEntry { key: AT_PAGESZ, value: 4096 },
        AuxvEntry { key: AT_RANDOM, value: 0x7ffe_1234 },
        AuxvEntry { key: AT_NULL, value: 0 },
        AuxvEntry { key: AT_PAGESZ, value: 1 },
    ];
    entries.resize(64, AuxvEntry { key: AT_NULL, value: AT_NULL });
    Auxv::new(entries)
}

#[test]
fn test_auxv_iter() {
    let auxv = vector();
    let mut iter = auxv.iter();
    let mut keys = Vec::new();
    while let Some(entry) = iter.next() {
        keys.push(entry.key);
    }
    assert!(keys.iter().any(|&key| key == AT_RANDOM), "AT_RANDOM not found in auxiliary vector");
    assert_eq!(keys, vec![AT_SYSINFO_EHDR, 16, AT_PAGESZ, AT_RANDOM]);
    assert_eq!(iter.next(), None);
    assert_eq!(iter.next(), None);
}

#[test]
fn auxv_iter_stops_at_the_end_of_a_full_vector() {
    let auxv = Auxv::new(vec![AuxvEntry { key: 7, value: 1 }, AuxvEntry { key: 9, value: 2 }]);
    let mut iter = auxv.iter();
    assert_eq!(iter.next(), Some(AuxvEntry { key: 7, value: 1 }));
    assert_eq!(iter.next(), Some(AuxvEntry { key: 9, value: 2 }));
    assert_eq!(iter.next(), None);
    assert_eq!(Auxv::new(Vec::new()).iter().next(), None);
}

#[test]
fn auxv_locate_finds_image_and_page_size() {
    assert_eq!(vector().locate(), (Some(0x7fff_0000), Some(4096)));
    let without = Auxv::new(vec![
        AuxvEntry { key: AT_RANDOM, value: 5 },
        AuxvEntry { key: AT_NULL, value: 0 },
        AuxvEntry { key: AT_SYSINFO_EHDR, value: 9 },
    ]);
    assert_eq!(without.locate(), (None, None));
    let twice = Auxv::new(vec![
        AuxvEntry { key: AT_PAGESZ, value: 4096 },
        AuxvEntry { key: AT_PAGESZ, value: 16384 },
    ]);
    assert_eq!(twice.locate(), (None, Some(16384)));
}
