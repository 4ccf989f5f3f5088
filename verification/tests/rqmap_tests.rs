use rqmap::contig::Contig;
use rqmap::library_strategy::{CountStrand, LibraryType};
use rqmap::record::ReadRecord;
use rqmap::rqmap::{region_fetch_bounds, RQMap};
use rqmap::scaffold_dict::ScaffoldDict;
use rqmap::strand::Strand;

type NoFilter = fn(ReadRecord) -> bool;
type NoPost = fn(Contig) -> Contig;

fn chr1_dict() -> ScaffoldDict {
    ScaffoldDict::from_header(vec!["chr1".to_string()])
}

fn read_at(pos: i64, len: u64, reverse: bool) -> ReadRecord {
    ReadRecord {
        tid: 0,
        pos,
        mpos: pos,
        insert_size: 0,
        seq_len: len,
        cigar_end: Some(pos + len as i64),
        mapq: 40,
        is_unmapped: false,
        is_reverse: reverse,
        is_proper_pair: false,
        is_first_in_template: true,
    }
}

fn five_reads() -> Vec<ReadRecord> {
    vec![
        read_at(564475, 35, false),
        read_at(564480, 35, true),
        read_at(564490, 35, false),
        read_at(564500, 35, true),
        read_at(564510, 35, false),
    ]
}

#[test]
fn rqmap_from_reader() {
    let sd = chr1_dict();
    let recs = five_reads();
    let r = RQMap::from_records::<NoFilter, NoPost>(
        &recs,
        false,
        LibraryType::Unstranded,
        &sd,
        None,
        None,
    );
    assert!(r.is_ok());
}

#[test]
fn rqmap_from_reader_filt() {
    let sd = chr1_dict();
    let mut recs = five_reads();
    recs[1].mapq = 10;
    fn mapq_filt(b: ReadRecord) -> bool {
        b.mapq > 30
    }
    let m = RQMap::from_records::<NoFilter, NoPost>(
        &recs,
        false,
        LibraryType::Unstranded,
        &sd,
        Some(&(mapq_filt as NoFilter)),
        None,
    )
    .unwrap();
    let all = Contig::new("chr1".to_string(), 564400, 300, Strand::Unknown);
    assert_eq!(m.quantify(&all, &CountStrand::Both), 4);
}

#[test]
fn rqmap_from_reader_preproc() {
    let sd = chr1_dict();
    let recs = vec![read_at(1000, 30, false)];
    fn tn5shift(c: Contig) -> Contig {
        let shifted = match c.strand() {
            Strand::Reverse => c.shift(5),
            _ => c.shift(4),
        };
        shifted.fiveprime().to_contig()
    }
    let m = RQMap::from_records::<NoFilter, NoPost>(
        &recs,
        false,
        LibraryType::Unstranded,
        &sd,
        None,
        Some(&(tn5shift as NoPost)),
    )
    .unwrap();
    let cut = Contig::new("chr1".to_string(), 1004, 1, Strand::Unknown);
    assert_eq!(m.quantify(&cut, &CountStrand::Both), 1);
    let away = Contig::new("chr1".to_string(), 1010, 10, Strand::Unknown);
    assert_eq!(m.quantify(&away, &CountStrand::Both), 0);
}

#[test]
fn rqmap_unmapped_skipped_with_notice() {
    let sd = chr1_dict();
    let mut recs = five_reads();
    recs[2].is_unmapped = true;
    let m = RQMap::from_records::<NoFilter, NoPost>(
        &recs,
        false,
        LibraryType::Unstranded,
        &sd,
        None,
        None,
    )
    .unwrap();
    assert_eq!(m.notices(), 1);
    let all = Contig::new("chr1".to_string(), 564400, 300, Strand::Unknown);
    assert_eq!(m.quantify(&all, &CountStrand::Both), 4);
}

#[test]
fn rqmap_unknown_scaffold_aborts() {
    let sd = chr1_dict();
    let mut recs = five_reads();
    recs[3].tid = 7;
    let r = RQMap::from_records::<NoFilter, NoPost>(
        &recs,
        false,
        LibraryType::Unstranded,
        &sd,
        None,
        None,
    );
    assert_eq!(r.unwrap_err(), rqmap::errors::InvalidRecordError::UnknownScaffold);
}

#[test]
fn quantify_totals_over_buckets() {
    let sd = chr1_dict();
    let recs = five_reads();
    let m = RQMap::from_records::<NoFilter, NoPost>(
        &recs,
        false,
        LibraryType::Unstranded,
        &sd,
        None,
        None,
    )
    .unwrap();
    let all = Contig::new("chr1".to_string(), 564400, 300, Strand::Unknown);
    assert_eq!(m.quantify(&all, &CountStrand::Both), 5);
    assert_eq!(m.quantify(&all, &CountStrand::Plus), 3);
    assert_eq!(m.quantify(&all, &CountStrand::Minus), 2);
    assert_eq!(m.counts_within(&all, &CountStrand::Both), 5);
    let off = Contig::new("chr2".to_string(), 564400, 300, Strand::Unknown);
    assert_eq!(m.quantify(&off, &CountStrand::Both), 0);
}

#[test]
fn quantify_is_monotonic_in_query() {
    let sd = chr1_dict();
    let recs = five_reads();
    let m = RQMap::from_records::<NoFilter, NoPost>(
        &recs,
        false,
        LibraryType::Unstranded,
        &sd,
        None,
        None,
    )
    .unwrap();
    let small = Contig::new("chr1".to_string(), 564480, 10, Strand::Unknown);
    let big = Contig::new("chr1".to_string(), 564450, 200, Strand::Unknown);
    for ct in [CountStrand::Plus, CountStrand::Minus, CountStrand::Both] {
        assert!(m.quantify(&small, &ct) <= m.quantify(&big, &ct));
    }
}

#[test]
fn coverage_across_region() {
    let sd = chr1_dict();
    let recs = five_reads();
    let m = RQMap::from_records::<NoFilter, NoPost>(
        &recs,
        false,
        LibraryType::Unstranded,
        &sd,
        None,
        None,
    )
    .unwrap();
    let c0 = Contig::new("chr1".to_string(), 564475, 60, Strand::Forward);
    let cov = m.coverage_across(&c0, &CountStrand::Both);
    assert_eq!(cov.len(), 60);
    // at 564475 only the first read covers; at 564512, reads 2..=5 do
    assert_eq!(cov[0], 1);
    assert_eq!(cov[37], 4);
    let plus = m.coverage_across(&c0, &CountStrand::Plus);
    let minus = m.coverage_across(&c0, &CountStrand::Minus);
    for i in 0..60 {
        assert_eq!(cov[i], plus[i] + minus[i]);
    }
}

#[test]
fn rqmap_from_indexed() {
    let sd = chr1_dict();
    let region = Contig::new("chr1".to_string(), 564475, 60, Strand::Forward);
    let (tid, lo, hi) = region_fetch_bounds(&sd, &region).unwrap();
    assert_eq!(tid, 0);
    assert_eq!(lo, 564475);
    assert_eq!(hi, 564534);
    let recs = five_reads();
    let m = RQMap::from_records::<NoFilter, NoPost>(
        &recs,
        false,
        LibraryType::Unstranded,
        &sd,
        None,
        None,
    )
    .unwrap();
    let all = Contig::new("chr1".to_string(), 564400, 300, Strand::Unknown);
    assert_eq!(m.quantify(&all, &CountStrand::Both), 5);
}

#[test]
fn unknown_region_is_skipped() {
    let sd = chr1_dict();
    let region = Contig::new("chrMT".to_string(), 100, 50, Strand::Unknown);
    assert!(region_fetch_bounds(&sd, &region).is_none());
}

#[test]
fn zero_length_interval_never_counted() {
    let sd = chr1_dict();
    let mut recs = vec![read_at(1000, 30, false)];
    recs[0].cigar_end = Some(1000);
    let m = RQMap::from_records::<NoFilter, NoPost>(
        &recs,
        false,
        LibraryType::Unstranded,
        &sd,
        None,
        None,
    )
    .unwrap();
    let all = Contig::new("chr1".to_string(), 900, 300, Strand::Unknown);
    assert_eq!(m.quantify(&all, &CountStrand::Both), 0);
}

#[test]
fn construction_metadata_kept() {
    let sd = chr1_dict();
    let recs = five_reads();
    let m = RQMap::from_records::<NoFilter, NoPost>(
        &recs,
        false,
        LibraryType::R1Sense,
        &sd,
        None,
        None,
    )
    .unwrap();
    assert_eq!(m.construction(), LibraryType::R1Sense);
    assert_eq!(m.notices(), 0);
}

#[test]
fn coverage_at_point() {
    let sd = chr1_dict();
    let recs = five_reads();
    let m = RQMap::from_records::<NoFilter, NoPost>(
        &recs,
        false,
        LibraryType::Unstranded,
        &sd,
        None,
        None,
    )
    .unwrap();
    let p = rqmap::contig::Pos::new("chr1".to_string(), 564475, Strand::Unknown);
    assert_eq!(m.coverage_at(&p, &CountStrand::Both), 1);
    assert_eq!(m.coverage_at(&p, &CountStrand::Plus), 1);
    assert_eq!(m.coverage_at(&p, &CountStrand::Minus), 0);
    let far = rqmap::contig::Pos::new("chr1".to_string(), 1, Strand::Unknown);
    assert_eq!(m.coverage_at(&far, &CountStrand::Both), 0);
}
