use rqmap::contig::Contig;
use rqmap::errors::InvalidRecordError;
use rqmap::library_strategy::LibraryType;
use rqmap::locus::Locus;
use rqmap::record::ReadRecord;
use rqmap::scaffold_dict::ScaffoldDict;
use rqmap::strand::Strand;

fn chr1_dict() -> ScaffoldDict {
    ScaffoldDict::from_header(vec!["chr1".to_string(), "chr2".to_string()])
}

fn first_read() -> ReadRecord {
    ReadRecord {
        tid: 0,
        pos: 564475,
        mpos: 564475,
        insert_size: 0,
        seq_len: 35,
        cigar_end: Some(564510),
        mapq: 60,
        is_unmapped: false,
        is_reverse: false,
        is_proper_pair: false,
        is_first_in_template: true,
    }
}

#[test]
fn contig_from_read() {
    let sd = chr1_dict();
    let truth = "chr1:564476-564511(+)";
    let c = Contig::from_read(&first_read(), false, &sd).unwrap();
    assert_eq!(c.to_text(), truth);
    assert_eq!(c.refid(), "chr1");
    assert_eq!(c.start(), 564475);
    assert_eq!(c.length(), 35);
    assert_eq!(c.strand(), Strand::Forward);
}

#[test]
fn locus_bam_rec_2_contig_works() {
    let sd = chr1_dict();
    let truth = "chr1:564476-564511(+)";
    let l = Locus::new(first_read());
    let c = l.as_contig(true, &sd).unwrap();
    assert_eq!(c.to_text(), truth);
}

#[test]
fn genomic_loci_bam_rec_2_contig_works() {
    let sd = chr1_dict();
    let truth = "chr1:564476-564511(+)";
    let c = first_read().as_contig(true, false, &sd, LibraryType::Unstranded).unwrap();
    assert_eq!(c.to_text(), truth);
}

#[test]
fn nostrand_rec2contig_works() {
    let sd = chr1_dict();
    let truth = "chr1:564476-564511";
    let c = first_read().as_contig(false, false, &sd, LibraryType::Unstranded).unwrap();
    assert_eq!(c.to_text(), truth);
}

#[test]
fn genomic_loci_make_locus_works() {
    let l = Locus::new(first_read());
    let sd = chr1_dict();
    let _c = l.as_contig(false, &sd).unwrap();
}

#[test]
fn locus_make_locus_works() {
    let _l = Locus::new(first_read());
}

#[test]
fn unmapped_record_is_rejected() {
    let sd = chr1_dict();
    let mut r = first_read();
    r.is_unmapped = true;
    assert_eq!(
        Contig::from_read(&r, false, &sd).unwrap_err(),
        InvalidRecordError::UnmappedRecord
    );
}

#[test]
fn unknown_scaffold_is_rejected() {
    let sd = chr1_dict();
    let mut r = first_read();
    r.tid = 9;
    assert_eq!(
        Contig::from_read(&r, false, &sd).unwrap_err(),
        InvalidRecordError::UnknownScaffold
    );
}

#[test]
fn cigar_fallback_uses_sequence_length() {
    let sd = chr1_dict();
    let mut r = first_read();
    r.cigar_end = None;
    let c = Contig::from_read(&r, false, &sd).unwrap();
    assert_eq!(c.length(), 35);
    assert_eq!(c.start(), 564475);
}

#[test]
fn fragment_mode_spans_template() {
    let sd = chr1_dict();
    let mut r = first_read();
    r.is_proper_pair = true;
    r.mpos = 564400;
    r.insert_size = -110;
    let c = Contig::from_read(&r, true, &sd).unwrap();
    assert_eq!(c.start(), 564400);
    assert_eq!(c.length(), 110);
}

#[test]
fn fragment_mode_needs_proper_pair() {
    let sd = chr1_dict();
    let mut r = first_read();
    r.is_proper_pair = false;
    r.mpos = 564400;
    r.insert_size = -110;
    let c = Contig::from_read(&r, true, &sd).unwrap();
    assert_eq!(c.start(), 564475);
    assert_eq!(c.length(), 35);
}

#[test]
fn protocol_strand_rules() {
    let sd = chr1_dict();
    let mut r = first_read();
    r.is_proper_pair = true;
    r.insert_size = 100;
    r.is_first_in_template = true;
    r.is_reverse = true;
    let c = r.as_contig(true, true, &sd, LibraryType::R1Sense).unwrap();
    assert_eq!(c.strand(), Strand::Reverse);
    let c = r.as_contig(true, true, &sd, LibraryType::R2Sense).unwrap();
    assert_eq!(c.strand(), Strand::Forward);
    let c = r.as_contig(true, true, &sd, LibraryType::Unstranded).unwrap();
    assert_eq!(c.strand(), Strand::Reverse);
    r.is_first_in_template = false;
    let c = r.as_contig(true, true, &sd, LibraryType::R1Sense).unwrap();
    assert_eq!(c.strand(), Strand::Forward);
    let c = r.as_contig(true, true, &sd, LibraryType::R2Sense).unwrap();
    assert_eq!(c.strand(), Strand::Reverse);
    let c = r.as_contig(false, true, &sd, LibraryType::R1Sense).unwrap();
    assert_eq!(c.strand(), Strand::Unknown);
}

#[test]
fn protocol_strand_rules_apply_outside_fragment_mode() {
    // the sense rules hold of unpaired, non-fragment records too
    let sd = chr1_dict();
    let mut r = first_read();
    r.is_proper_pair = false;
    r.is_first_in_template = false;
    r.is_reverse = true;
    let c = r.as_contig(true, false, &sd, LibraryType::R1Sense).unwrap();
    assert_eq!(c.strand(), Strand::Forward);
    r.is_reverse = false;
    let c = r.as_contig(true, false, &sd, LibraryType::R2Sense).unwrap();
    assert_eq!(c.strand(), Strand::Reverse);
    r.is_first_in_template = true;
    r.is_reverse = true;
    let c = r.as_contig(true, false, &sd, LibraryType::R1Sense).unwrap();
    assert_eq!(c.strand(), Strand::Reverse);
    let c = r.as_contig(true, false, &sd, LibraryType::R2Sense).unwrap();
    assert_eq!(c.strand(), Strand::Forward);
    let c = r.as_contig(true, false, &sd, LibraryType::ATAC).unwrap();
    assert_eq!(c.strand(), Strand::Reverse);
}

#[test]
fn error_descriptions() {
    assert_eq!(InvalidRecordError::UnmappedRecord.describe(), "Record is unmapped");
    assert_eq!(
        InvalidRecordError::UnknownScaffold.describe(),
        "Record tid not present in provided scaffold dict"
    );
    assert_eq!(
        InvalidRecordError::UnpairedRecord.describe(),
        "Record is unpaired but your library interpretation requires pairs"
    );
    assert_eq!(InvalidRecordError::NoneSuchRecord.describe(), "No such region or record");
}
