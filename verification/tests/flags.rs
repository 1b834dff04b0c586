use axmem_core::flags::{
    MAP_ALL, MAP_ANONYMOUS, MAP_FIXED, MAP_NORESERVE, MAP_PRIVATE, MAP_SHARED, MAP_STACK,
    PROT_ALL, PROT_EXEC, PROT_READ, PROT_WRITE,
};
use axmem_core::{MappingFlags, MmapFlags, MmapProt};

#[test]
fn flag_values_are_those_of_the_abi() {
    assert_eq!(PROT_READ, 1);
    assert_eq!(PROT_WRITE, 2);
    assert_eq!(PROT_EXEC, 4);
    assert_eq!(MAP_SHARED, 1);
    assert_eq!(MAP_PRIVATE, 2);
    assert_eq!(MAP_FIXED, 16);
    assert_eq!(MAP_ANONYMOUS, 32);
    assert_eq!(MAP_NORESERVE, 0x4000);
    assert_eq!(MAP_STACK, 0x20000);
    assert_eq!(PROT_ALL, PROT_READ | PROT_WRITE | PROT_EXEC);
    assert_eq!(
        MAP_ALL,
        MAP_SHARED | MAP_PRIVATE | MAP_FIXED | MAP_ANONYMOUS | MAP_NORESERVE | MAP_STACK
    );
}

#[test]
fn protection_is_read_from_its_bits() {
    assert_eq!(
        MmapProt::from_bits(0),
        Some(MmapProt { read: false, write: false, execute: false })
    );
    assert_eq!(
        MmapProt::from_bits(PROT_READ),
        Some(MmapProt { read: true, write: false, execute: false })
    );
    assert_eq!(
        MmapProt::from_bits(PROT_WRITE),
        Some(MmapProt { read: false, write: true, execute: false })
    );
    assert_eq!(
        MmapProt::from_bits(PROT_EXEC),
        Some(MmapProt { read: false, write: false, execute: true })
    );
    assert_eq!(
        MmapProt::from_bits(PROT_READ | PROT_WRITE),
        Some(MmapProt { read: true, write: true, execute: false })
    );
    assert_eq!(MmapProt::from_bits(7), Some(MmapProt { read: true, write: true, execute: true }));
}

#[test]
fn unknown_protection_bits_are_refused() {
    assert_eq!(MmapProt::from_bits(8), None);
    assert_eq!(MmapProt::from_bits(9), None);
    assert_eq!(MmapProt::from_bits(0x100), None);
    assert_eq!(MmapProt::from_bits(-1), None);
    assert_eq!(MmapProt::from_bits(i32::MIN), None);
    assert_eq!(MmapProt::from_bits(i32::MIN | 1), None);
}

#[test]
fn protection_bits_round_trip() {
    let mut bits = 0;
    while bits <= 7 {
        assert_eq!(MmapProt::from_bits(bits).unwrap().bits(), bits);
        bits += 1;
    }
}

#[test]
fn flags_are_read_from_their_bits() {
    let none = MmapFlags {
        shared: false,
        private: false,
        fixed: false,
        anonymous: false,
        noreserve: false,
        stack: false,
    };
    assert_eq!(MmapFlags::from_bits(0), Some(none));
    assert_eq!(MmapFlags::from_bits(MAP_SHARED), Some(MmapFlags { shared: true, ..none }));
    assert_eq!(MmapFlags::from_bits(MAP_PRIVATE), Some(MmapFlags { private: true, ..none }));
    assert_eq!(MmapFlags::from_bits(MAP_FIXED), Some(MmapFlags { fixed: true, ..none }));
    assert_eq!(MmapFlags::from_bits(MAP_ANONYMOUS), Some(MmapFlags { anonymous: true, ..none }));
    assert_eq!(MmapFlags::from_bits(MAP_NORESERVE), Some(MmapFlags { noreserve: true, ..none }));
    assert_eq!(MmapFlags::from_bits(MAP_STACK), Some(MmapFlags { stack: true, ..none }));
    assert_eq!(
        MmapFlags::from_bits(MAP_PRIVATE | MAP_ANONYMOUS),
        Some(MmapFlags { private: true, anonymous: true, ..none })
    );
    assert_eq!(
        MmapFlags::from_bits(MAP_ALL),
        Some(MmapFlags {
            shared: true,
            private: true,
            fixed: true,
            anonymous: true,
            noreserve: true,
            stack: true,
        })
    );
}

#[test]
fn unknown_flag_bits_are_refused() {
    assert_eq!(MmapFlags::from_bits(4), None);
    assert_eq!(MmapFlags::from_bits(8), None);
    assert_eq!(MmapFlags::from_bits(0x40), None);
    assert_eq!(MmapFlags::from_bits(MAP_PRIVATE | 0x100), None);
    assert_eq!(MmapFlags::from_bits(0x40000), None);
    assert_eq!(MmapFlags::from_bits(-1), None);
    assert_eq!(MmapFlags::from_bits(i32::MIN | MAP_PRIVATE), None);
}

#[test]
fn flag_bits_round_trip() {
    let each = [MAP_SHARED, MAP_PRIVATE, MAP_FIXED, MAP_ANONYMOUS, MAP_NORESERVE, MAP_STACK];
    let mut choice = 0usize;
    while choice < 64 {
        let mut bits = 0;
        let mut i = 0;
        while i < 6 {
            if choice & (1 << i) != 0 {
                bits |= each[i];
            }
            i += 1;
        }
        assert_eq!(MmapFlags::from_bits(bits).unwrap().bits(), bits);
        choice += 1;
    }
}

#[test]
fn permissions_follow_the_protection() {
    let none = MmapProt { read: false, write: false, execute: false };
    assert_eq!(
        MappingFlags::from(none),
        MappingFlags { read: false, write: false, execute: false, user: true }
    );
    assert_eq!(MappingFlags::from(none).bits(), 8);
    assert_eq!(
        MappingFlags::from(MmapProt { read: true, ..none }),
        MappingFlags { read: true, write: false, execute: false, user: true }
    );
    assert_eq!(MappingFlags::from(MmapProt { read: true, ..none }).bits(), 9);
    assert_eq!(MappingFlags::from(MmapProt { write: true, ..none }).bits(), 10);
    assert_eq!(MappingFlags::from(MmapProt { execute: true, ..none }).bits(), 12);
    assert_eq!(
        MappingFlags::from(MmapProt { read: true, write: true, execute: false }),
        MappingFlags { read: true, write: true, execute: false, user: true }
    );
    assert_eq!(
        MappingFlags::from(MmapProt { read: true, write: true, execute: true }).bits(),
        15
    );
}

#[test]
fn permission_bits() {
    assert_eq!(
        MappingFlags { read: false, write: false, execute: false, user: false }.bits(),
        0
    );
    assert_eq!(MappingFlags { read: true, write: false, execute: true, user: false }.bits(), 5);
}
