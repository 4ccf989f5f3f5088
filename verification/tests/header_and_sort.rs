use rqmap::header_text::{
    get_hdr_srt_tag, header_entry_line, header_tag_lines, header_text, join_lines, record_field,
    record_set_field,
};
use rqmap::record::{cmp_read_names, NameOrder};
use rqmap::scaffold_dict::ScaffoldDict;

fn pairs(kv: &[(&str, &str)]) -> Vec<(String, String)> {
    kv.iter().map(|(k, v)| (k.to_string(), v.to_string())).collect()
}

fn small_header() -> Vec<(String, Vec<Vec<(String, String)>>)> {
    vec![
        ("HD".to_string(), vec![pairs(&[("VN", "1.6"), ("SO", "coordinate")])]),
        (
            "SQ".to_string(),
            vec![pairs(&[("SN", "chr1"), ("LN", "248956422")]), pairs(&[("SN", "chr2"), (
                "LN",
                "242193529",
            )])],
        ),
    ]
}

#[test]
fn grab_header_works() {
    let hm = small_header();
    assert_eq!(get_hdr_srt_tag(&hm).unwrap(), "coordinate");
}

#[test]
fn edit_header_works() {
    let mut hm = small_header();
    let edited = record_set_field(&hm[0].1[0], "SO", "test");
    hm[0].1 = vec![edited];
    assert_eq!(get_hdr_srt_tag(&hm).unwrap(), "test");
}

#[test]
fn set_field_appends_when_absent() {
    let rec = pairs(&[("VN", "1.6")]);
    let edited = record_set_field(&rec, "SO", "queryname");
    assert_eq!(edited, pairs(&[("VN", "1.6"), ("SO", "queryname")]));
    assert_eq!(record_field(&edited, "SO").unwrap(), "queryname");
    assert!(record_field(&rec, "SO").is_none());
}

#[test]
fn header_entry_line_format() {
    let rec = pairs(&[("VN", "1.6"), ("SO", "coordinate")]);
    assert_eq!(header_entry_line(&rec, "HD"), "@HD\tVN:1.6\tSO:coordinate");
    assert_eq!(header_entry_line(&pairs(&[]), "HD"), "@HD\t");
}

#[test]
fn header_tag_lines_collects_group() {
    let hm = small_header();
    let lines = header_tag_lines("SQ", &hm).unwrap();
    assert_eq!(lines, vec![
        "@SQ\tSN:chr1\tLN:248956422".to_string(),
        "@SQ\tSN:chr2\tLN:242193529".to_string(),
    ]);
    assert!(header_tag_lines("PG", &hm).is_none());
}

#[test]
fn header_text_joins_blocks() {
    let hm = small_header();
    assert_eq!(
        header_text(&hm),
        "@HD\tVN:1.6\tSO:coordinate\n@SQ\tSN:chr1\tLN:248956422\n@SQ\tSN:chr2\tLN:242193529"
    );
    assert_eq!(join_lines(&vec!["a".to_string(), "b".to_string()]), "a\nb");
}

#[test]
fn name_sort_bam_works() {
    let mut names: Vec<Vec<u8>> = vec![
        b"read.9".to_vec(),
        b"read.10".to_vec(),
        b"alpha".to_vec(),
        b"zeta".to_vec(),
        b"alpha".to_vec(),
    ];
    names.sort_by(|a, b| match cmp_read_names(a, b) {
        NameOrder::Before => std::cmp::Ordering::Less,
        NameOrder::Same => std::cmp::Ordering::Equal,
        NameOrder::After => std::cmp::Ordering::Greater,
    });
    for w in names.windows(2) {
        assert!(w[0] <= w[1]);
    }
    assert_eq!(names[0], b"alpha".to_vec());
    assert_eq!(cmp_read_names(&b"abc".to_vec(), &b"abd".to_vec()), NameOrder::Before);
    assert_eq!(cmp_read_names(&b"abc".to_vec(), &b"ab".to_vec()), NameOrder::After);
    assert_eq!(cmp_read_names(&b"ab".to_vec(), &b"ab".to_vec()), NameOrder::Same);
}

#[test]
fn scaffold_roundtrip() {
    let sd = ScaffoldDict::from_header(vec!["chr1".to_string(), "chrX".to_string()]);
    assert_eq!(sd.id_to_str(0).unwrap(), "chr1");
    assert_eq!(sd.id_to_str(1).unwrap(), "chrX");
    assert!(sd.id_to_str(2).is_none());
    assert!(sd.id_to_str(-1).is_none());
    assert_eq!(sd.str_to_id("chrX").unwrap(), 1);
    assert!(sd.str_to_id("chrY").is_none());
}

#[test]
fn scaffold_alt_fallback() {
    let sd = ScaffoldDict::from_header_with_alt(
        vec!["chr1".to_string()],
        vec![(7, "scaffold_7".to_string())],
    );
    assert_eq!(sd.id_to_str(0).unwrap(), "chr1");
    assert_eq!(sd.id_to_str(7).unwrap(), "scaffold_7");
    assert!(sd.id_to_str(8).is_none());
    // the secondary table has no reverse lookup, by design
    assert!(sd.str_to_id("scaffold_7").is_none());
}
