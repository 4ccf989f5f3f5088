use rqmap::contig::{Contig, Pos};
use rqmap::library_strategy::LibraryType;
use rqmap::record::ReadRecord;
use rqmap::scaffold_dict::ScaffoldDict;
use rqmap::strand::Strand;

fn chr1_dict() -> ScaffoldDict {
    ScaffoldDict::from_header(vec!["chr1".to_string()])
}

fn first_read() -> ReadRecord {
    ReadRecord {
        tid: 0,
        pos: 564475,
        mpos: 564475,
        insert_size: 0,
        seq_len: 35,
        cigar_end: Some(564510),
        mapq: 60,
        is_unmapped: false,
        is_reverse: false,
        is_proper_pair: false,
        is_first_in_template: true,
    }
}

#[test]
fn nostrand_shift_contig() {
    let sd = chr1_dict();
    let truth = "chr1:564481-564516(+)";
    let c = Contig::from_read(&first_read(), false, &sd).unwrap();
    assert_eq!(c.shift(5).to_text(), truth);
}

#[test]
fn prime_nostrand_shift_contig() {
    let sd = chr1_dict();
    let truth = "chr1:564476";
    let c = first_read().as_contig(false, false, &sd, LibraryType::Unstranded).unwrap();
    assert_eq!(c.fiveprime().to_text(), truth);
}

#[test]
fn shift_is_strand_relative() {
    let fwd = Contig::new("chr1".to_string(), 100, 10, Strand::Forward);
    assert_eq!(fwd.shift(7).start(), 107);
    let rev = Contig::new("chr1".to_string(), 100, 10, Strand::Reverse);
    assert_eq!(rev.shift(7).start(), 93);
    let unk = Contig::new("chr1".to_string(), 100, 10, Strand::Unknown);
    assert_eq!(unk.shift(7).start(), 107);
}

#[test]
fn shift_round_trips() {
    for strand in [Strand::Forward, Strand::Reverse, Strand::Unknown] {
        let c = Contig::new("chr1".to_string(), 500, 20, strand);
        let back = c.shift(13).shift(-13);
        assert_eq!(back, c);
        let p = Pos::new("chr1".to_string(), 500, strand);
        assert_eq!(p.shift(13).shift(-13), p);
    }
}

#[test]
fn pos_shift_flips_on_reverse() {
    let p = Pos::new("chr1".to_string(), 100, Strand::Reverse);
    assert_eq!(p.shift(5).pos(), 95);
}

#[test]
fn positions_from_contig() {
    let c = Contig::new("chr1".to_string(), 10, 4, Strand::Forward);
    let mut scan = c.positions();
    let got: Vec<i64> = scan.collect().iter().map(|p| p.pos()).collect();
    assert_eq!(got, vec![10, 11, 12, 13]);
}

#[test]
fn positions_count_matches_length() {
    for strand in [Strand::Forward, Strand::Reverse, Strand::Unknown] {
        let c = Contig::new("chr1".to_string(), 200, 7, strand);
        let mut scan = c.positions();
        let mut n = 0;
        while let Some(p) = scan.next() {
            assert_eq!(p.refid(), "chr1");
            n += 1;
        }
        assert_eq!(n, 7);
    }
}

#[test]
fn reverse_positions_run_downward() {
    let c = Contig::new("chr1".to_string(), 10, 4, Strand::Reverse);
    let mut scan = c.positions();
    let got: Vec<i64> = scan.collect().iter().map(|p| p.pos()).collect();
    assert_eq!(got, vec![13, 12, 11, 10]);
    for p in c.positions().collect() {
        assert_eq!(p.strand(), Strand::Forward);
    }
}

#[test]
fn positions_are_restartable() {
    let c = Contig::new("chr1".to_string(), 42, 5, Strand::Forward);
    let a: Vec<Pos> = c.positions().collect();
    let b: Vec<Pos> = c.positions().collect();
    assert_eq!(a, b);
}

#[test]
fn zero_length_scan_is_empty() {
    let c = Contig::new("chr1".to_string(), 42, 0, Strand::Forward);
    assert!(c.positions().next().is_none());
}

#[test]
fn negative_coordinate_display() {
    let c = Contig::new("chr1".to_string(), -5, 2, Strand::Unknown);
    assert_eq!(c.to_text(), "chr1:-4--2");
}

#[test]
fn display_handles_digit_boundaries() {
    let c = Contig::new("x".to_string(), 0, 1, Strand::Unknown);
    assert_eq!(c.to_text(), "x:1-2");
    let c = Contig::new("x".to_string(), 8, 2, Strand::Forward);
    assert_eq!(c.to_text(), "x:9-11(+)");
    let p = Pos::new("x".to_string(), 99, Strand::Reverse);
    assert_eq!(p.to_text(), "x:100(-)");
}
