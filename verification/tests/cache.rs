use glasswing::cache::probing::{power_of_two, probe_slot, Probe, RETRIES};
use glasswing::cache::{
    Entry, Entry64, EntryBasedTranspositionTable, QuadraticProbingTable64, TranspositionHash,
    TranspositionTable,
};

#[derive(Clone, Copy, Debug, PartialEq, Eq)]
struct Key(u64);

impl TranspositionHash for Key {
    fn spec_hash(&self) -> u64 {
        self.0
    }

    fn hash(&self) -> u64 {
        self.0
    }
}

type Table = QuadraticProbingTable64<Key, u64>;

#[test]
fn a_table_needs_a_power_of_two() {
    assert!(Table::try_new(100).is_none());
    let table = Table::try_new(128).unwrap();
    assert_eq!(table.capacity(), 128);
    assert_eq!(table.size(), 0);
    assert_eq!(Table::new(128).capacity(), 128);
    assert!(Table::try_new(0).is_none());
    assert!(Table::try_new(1).is_some());
}

#[test]
fn powers_of_two_are_told_apart() {
    for exponent in 0..20 {
        assert!(power_of_two(1usize << exponent));
    }
    for n in [0usize, 3, 5, 6, 7, 9, 10, 12, 100, 1000, 65535] {
        assert!(!power_of_two(n));
    }
}

#[test]
fn the_last_write_wins() {
    let mut table = Table::new(64);
    assert_eq!(table.insert(Key(7), 1), None);
    assert_eq!(table.insert(Key(7), 2), Some(1));
    assert_eq!(table.get(&Key(7)), Some(&2));
    assert_eq!(table.size(), 1);
}

#[test]
fn distinct_keys_at_low_load_are_all_found() {
    let mut table = Table::new(1024);
    for k in 1..=100u64 {
        assert_eq!(table.insert(Key(k * 7919), k), None);
    }
    for k in 1..=100u64 {
        assert_eq!(table.insert(Key(k * 7919), k + 1000), Some(k));
    }
    for k in 1..=100u64 {
        assert_eq!(table.get(&Key(k * 7919)), Some(&(k + 1000)));
    }
    assert_eq!(table.size(), 100);
    assert_eq!(table.get(&Key(3)), None);
}

#[test]
fn signature_zero_is_never_stored() {
    let mut table = Table::new(16);
    assert_eq!(table.get(&Key(0)), None);
    assert_eq!(table.insert(Key(0), 9), None);
    assert_eq!(table.get(&Key(0)), None);
    assert_eq!(table.size(), 0);
    assert_eq!(table.insert(Key(0), 10), None);
    assert_eq!(table.get(&Key(0)), None);
}

#[test]
fn probes_follow_the_quadratic_sequence() {
    // origin 5 in a table of 16: 5, 5 + 1 + 2 = 8, 5 + 2 + 8 = 15, 5 + 3 + 18 = 26 & 15 = 10
    assert_eq!(probe_slot(5, 0, 15), 5);
    assert_eq!(probe_slot(5, 1, 15), 8);
    assert_eq!(probe_slot(5, 2, 15), 15);
    assert_eq!(probe_slot(5, 3, 15), 10);
    assert_eq!(probe_slot(5, 4, 15), 9);
    assert_eq!(probe_slot(5, 5, 15), 12);
    assert_eq!(probe_slot(5, 6, 15), 3);
    assert_eq!(probe_slot(5, 7, 15), 14);
    assert_eq!(probe_slot(21, 0, 15), 5);
    assert_eq!(probe_slot(u64::MAX, 0, 15), 15);

    let mut table = Table::new(16);
    table.insert(Key(5), 50);
    table.insert(Key(21), 210);
    table.insert(Key(37), 370);
    assert_eq!(table.probe(5), (Probe::Found(5), 1));
    assert_eq!(table.probe(21), (Probe::Found(8), 2));
    assert_eq!(table.probe(37), (Probe::Found(15), 3));
    assert_eq!(table.probe(53), (Probe::Vacant(10), 4));
    assert_eq!(table.get(&Key(21)), Some(&210));
    assert_eq!(table.get(&Key(37)), Some(&370));
    assert_eq!(table.get(&Key(53)), None);
}

#[test]
fn a_full_table_drops_and_never_probes_more_than_eight_slots() {
    let mut table = Table::new(2);
    assert_eq!(table.insert(Key(1), 10), None);
    assert_eq!(table.insert(Key(3), 30), None);
    assert_eq!(table.size(), 2);
    // both slots are taken by other signatures: the insertion is dropped
    assert_eq!(table.insert(Key(5), 50), None);
    assert_eq!(table.size(), 2);
    assert_eq!(table.get(&Key(5)), None);
    assert_eq!(table.probe(5), (Probe::Exhausted, RETRIES));
    assert_eq!(table.get(&Key(1)), Some(&10));
    assert_eq!(table.get(&Key(3)), Some(&30));
    for signature in 0..64u64 {
        let (_, probes) = table.probe(signature);
        assert!(probes >= 1 && probes <= 8);
    }
    // what is stored is still replaced
    assert_eq!(table.insert(Key(3), 31), Some(30));
    assert_eq!(table.get(&Key(3)), Some(&31));
}

#[test]
fn asking_twice_gives_the_same() {
    let mut table = Table::new(8);
    table.insert(Key(2), 20);
    let first = table.get(&Key(2)).copied();
    let second = table.get(&Key(2)).copied();
    assert_eq!(first, second);
    assert_eq!(first, Some(20));
    let first = table.get(&Key(4)).copied();
    let second = table.get(&Key(4)).copied();
    assert_eq!(first, second);
    assert_eq!(first, None);
}

#[test]
fn the_footprint_counts_the_slots() {
    let table = Table::new(32);
    let slot = std::mem::size_of::<Option<Entry64<Key, u64>>>();
    assert_eq!(table.size_in_memory(), 32 * slot);
    assert_eq!(Table::new(1024).size_in_memory(), 1024 * slot);
}

#[test]
fn an_entry_holds_a_signature_and_a_value() {
    let mut entry: Entry64<Key, u64> = Entry::new(Key(11), 5);
    assert_eq!(*entry.raw_key(), 11);
    assert_eq!(*entry.value(), 5);
    assert_eq!(entry.replace(6), 5);
    assert_eq!(*entry.value(), 6);
    *entry.value_mut() = 7;
    *entry.raw_key_mut() = 12;
    assert_eq!(entry.take(), (12, 7));
}

#[test]
fn the_table_is_a_transposition_table() {
    fn fill<T: TranspositionTable<Key, u64>>(table: &mut T) -> Option<u64> {
        table.insert(Key(9), 90);
        table.insert(Key(9), 91)
    }
    let mut table = Table::new(8);
    assert_eq!(fill(&mut table), Some(90));
    assert_eq!(TranspositionTable::get(&table, &Key(9)), Some(&91));
}

#[test]
fn the_table_hands_out_entries() {
    let mut table = Table::new(8);
    assert!(table.insert_entry(Key(9), 90).is_none());
    let replaced = table.insert_entry(Key(9), 91).unwrap();
    assert_eq!(replaced.take(), (9, 90));
    let held = table.get_entry(&Key(9)).unwrap();
    assert_eq!(*held.raw_key(), 9);
    assert_eq!(*held.value(), 91);
    assert!(table.get_entry(&Key(10)).is_none());
    assert!(table.insert_entry(Key(0), 1).is_none());
    assert!(table.get_entry(&Key(0)).is_none());
    assert_eq!(table.size(), 1);
}
