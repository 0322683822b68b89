use don_sim::leaders::{
    UnitTypeStatSource, UnitTypeStatSourceError, UnitTypeStatSourceProvenance,
    SUPPORTED_UNIT_TYPE_STAT_TSV_SHA256, UNIT_TYPE_STAT_END, UNIT_TYPE_STAT_FIRST,
};

/// The executable identity these tests admit against.
const EXE: [u8; 32] = [0x30; 32];

const HEADER: &str =
    "type_id\tfrom\twhere\tobj_masks\tarmor\tdomain\tgraft\tunit_flags\tunit_flags2\tmoves\n";

fn synthetic_live_tsv() -> String {
    let mut tsv = String::from(HEADER);
    for type_id in UNIT_TYPE_STAT_FIRST..UNIT_TYPE_STAT_END {
        tsv.push_str(&format!("{type_id}\t-1\t414\t0\t0\t0\t-1\t0\t0\t25\n"));
    }
    tsv
}

fn supported_source_provenance() -> UnitTypeStatSourceProvenance {
    UnitTypeStatSourceProvenance {
        executable_sha256: EXE,
        table_sha256: SUPPORTED_UNIT_TYPE_STAT_TSV_SHA256,
    }
}

fn parse(tsv: &str) -> Result<UnitTypeStatSource, UnitTypeStatSourceError> {
    UnitTypeStatSource::from_live_tsv(tsv, supported_source_provenance(), EXE)
}

fn admitted(source: &UnitTypeStatSource) -> usize {
    (0..UNIT_TYPE_STAT_END + 5)
        .filter(|t| source.row(*t).is_some())
        .count()
}

#[test]
fn runtime_unit_type_source_is_strict_and_generation_bound() {
    let tsv = synthetic_live_tsv();
    let source = parse(&tsv).expect("closed 364-row fixture");
    assert_eq!(admitted(&source), 364);
    assert_eq!(source.row(50).unwrap().moves, 25);
    assert!(source.row(49).is_none());

    let mut wrong = supported_source_provenance();
    wrong.table_sha256[0] ^= 1;
    assert_eq!(
        UnitTypeStatSource::from_live_tsv(&tsv, wrong, EXE),
        Err(UnitTypeStatSourceError::UnsupportedTable)
    );

    let short = tsv.lines().take(364).collect::<Vec<_>>().join("\n");
    assert_eq!(
        parse(&short),
        Err(UnitTypeStatSourceError::WrongRowCount { got: 363 })
    );
}

#[test]
fn unit_type_source_checks_the_executable_first() {
    let tsv = synthetic_live_tsv();
    let mut wrong = supported_source_provenance();
    wrong.executable_sha256[31] ^= 0x80;
    wrong.table_sha256[0] ^= 1;
    assert_eq!(
        UnitTypeStatSource::from_live_tsv(&tsv, wrong, EXE),
        Err(UnitTypeStatSourceError::UnsupportedExecutable)
    );
    let source = parse(&tsv).unwrap();
    assert_eq!(source.provenance(), supported_source_provenance());
}

#[test]
fn unit_type_source_reads_columns_by_name_and_crlf_lines() {
    let mut tsv = String::from(
        "moves\tunit_flags2\tunit_flags\tgraft\tdomain\tarmor\tobj_masks\twhere\tfrom\ttype_id\textra\r\n",
    );
    for type_id in UNIT_TYPE_STAT_FIRST..UNIT_TYPE_STAT_END {
        let from = if type_id == 103 { 100 } else { -1 };
        let graft = if type_id == 103 { 102 } else { -1 };
        tsv.push_str(&format!(
            "{}\t+4294967295\t7\t{graft}\t2\t-4\t8192\t427\t{from}\t{type_id}\tx\r\n",
            type_id % 7
        ));
    }
    let source = parse(&tsv).unwrap();
    let row = source.row(103).unwrap();
    assert_eq!(
        (row.from, row.graft, row.where_type, row.moves, row.armor),
        (100, 102, 427, 103 % 7, -4)
    );
    assert_eq!(row.unit_flags2, u32::MAX);
    assert_eq!(row.obj_masks, 0x2000);
    assert_eq!(row.domain, 2);
    assert_eq!(row.unit_flags, 7);
}

#[test]
fn unit_type_source_refuses_each_malformed_shape() {
    assert_eq!(parse(""), Err(UnitTypeStatSourceError::MissingHeader));
    assert_eq!(
        parse("type_id\tfrom\n"),
        Err(UnitTypeStatSourceError::MissingColumn("where"))
    );

    let good = synthetic_live_tsv();
    let lines: Vec<&str> = good.lines().collect();
    let with_line = |index: usize, text: &str| -> String {
        let mut v: Vec<String> = lines.iter().map(|l| l.to_string()).collect();
        v[index] = text.to_string();
        v.join("\n")
    };

    assert_eq!(
        parse(&with_line(3, "52\t-1\t414")),
        Err(UnitTypeStatSourceError::ShortRow { line: 4 })
    );
    assert_eq!(
        parse(&with_line(3, "52\t-1\t414\t-1\t0\t0\t-1\t0\t0\t25")),
        Err(UnitTypeStatSourceError::InvalidInteger {
            line: 4,
            column: "obj_masks"
        })
    );
    assert_eq!(
        parse(&with_line(3, "52\t-1\t414\t0\t0\t0\t-1\t0\t0\t2147483648")),
        Err(UnitTypeStatSourceError::InvalidInteger {
            line: 4,
            column: "moves"
        })
    );
    assert_eq!(
        parse(&with_line(3, "52\t-\t414\t0\t0\t0\t-1\t0\t0\t25")),
        Err(UnitTypeStatSourceError::InvalidInteger {
            line: 4,
            column: "from"
        })
    );
    assert_eq!(
        parse(&with_line(3, "414\t-1\t414\t0\t0\t0\t-1\t0\t0\t25")),
        Err(UnitTypeStatSourceError::TypeIdOutOfRange {
            line: 4,
            type_id: 414
        })
    );
    assert_eq!(
        parse(&with_line(3, "50\t-1\t414\t0\t0\t0\t-1\t0\t0\t25")),
        Err(UnitTypeStatSourceError::DuplicateType { type_id: 50 })
    );
}

#[test]
fn unit_type_source_closing_pass_reports_missing_types_and_relations() {
    let good = synthetic_live_tsv();
    let relation = good.replace("60\t-1\t414", "60\t49\t414");
    assert_eq!(
        parse(&relation),
        Err(UnitTypeStatSourceError::RelationOutOfRange {
            type_id: 60,
            column: "from",
            target: 49
        })
    );
    let graft = good.replace("70\t-1\t414\t0\t0\t0\t-1", "70\t-1\t414\t0\t0\t0\t414");
    assert_eq!(
        parse(&graft),
        Err(UnitTypeStatSourceError::RelationOutOfRange {
            type_id: 70,
            column: "graft",
            target: 414
        })
    );
    // Swapping the types of two lines keeps the table complete; a type outside the range
    // is then refused at its own line.
    let lines: Vec<&str> = good.lines().collect();
    let mut v: Vec<String> = lines.iter().map(|l| l.to_string()).collect();
    v[31] = v[31].replacen("80\t", "413\t", 1);
    v[364] = v[364].replacen("413\t", "80\t", 1);
    let swapped = v.join("\n");
    assert!(parse(&swapped).is_ok());
    v[31] = v[31].replacen("413\t", "999\t", 1);
    assert_eq!(
        parse(&v.join("\n")),
        Err(UnitTypeStatSourceError::TypeIdOutOfRange {
            line: 32,
            type_id: 999
        })
    );
}
