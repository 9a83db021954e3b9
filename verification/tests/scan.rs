use polars_bio::error::BioError;
use polars_bio::option::{InputFormat, ReadOptions, VcfReadOptions};
use polars_bio::scan::{
    create_view_query, format_extension, get_input_format, input_format_of_lowercase,
    maybe_register_table, register_frame, register_table, select_all_query, table_name,
    table_name_from_lowercase, Registration, TableSource, MAX_IN_MEMORY_ROWS,
};

#[test]
fn input_format_by_extension() {
    assert_eq!(get_input_format("/data/reads.parquet"), Ok(InputFormat::Parquet));
    assert_eq!(get_input_format("table.csv"), Ok(InputFormat::Csv));
    assert_eq!(get_input_format("regions.bed"), Ok(InputFormat::Bed));
    assert_eq!(get_input_format("calls.vcf"), Ok(InputFormat::Vcf));
    assert_eq!(get_input_format("calls.vcf.gz"), Ok(InputFormat::Vcf));
    assert_eq!(get_input_format("calls.vcf.bgz"), Ok(InputFormat::Vcf));
}

#[test]
fn input_format_ignores_case() {
    assert_eq!(get_input_format("READS.PARQUET"), Ok(InputFormat::Parquet));
    assert_eq!(get_input_format("Calls.Vcf.GZ"), Ok(InputFormat::Vcf));
    assert_eq!(input_format_of_lowercase("READS.PARQUET"), Err(BioError::UnsupportedFormat));
}

#[test]
fn input_format_unknown() {
    assert_eq!(get_input_format("reads.bam"), Err(BioError::UnsupportedFormat));
    assert_eq!(get_input_format("reads"), Err(BioError::UnsupportedFormat));
    assert_eq!(get_input_format(""), Err(BioError::UnsupportedFormat));
    assert_eq!(get_input_format("csv"), Err(BioError::UnsupportedFormat));
    assert_eq!(get_input_format("calls.vcf.zip"), Err(BioError::UnsupportedFormat));
    assert_eq!(get_input_format(".csv"), Ok(InputFormat::Csv));
}

#[test]
fn registration_of_parquet_and_csv() {
    assert!(matches!(register_table(InputFormat::Parquet, None), Ok(Registration::Parquet)));
    assert!(matches!(
        register_table(InputFormat::Csv, None),
        Ok(Registration::Csv { delimiter: b',', has_header: true })
    ));
}

#[test]
fn registration_of_vcf_uses_defaults_without_options() {
    for read_options in [None, Some(ReadOptions::new(None))] {
        match register_table(InputFormat::Vcf, read_options) {
            Ok(Registration::Vcf(options)) => {
                assert_eq!(options.thread_num, Some(1));
                assert_eq!(options.chunk_size, Some(64));
                assert_eq!(options.concurrent_fetches, Some(8));
                assert_eq!(options.info_fields, None);
                assert_eq!(options.format_fields, None);
            },
            other => panic!("{:?}", other),
        }
    }
}

#[test]
fn registration_of_vcf_keeps_given_options() {
    let given = VcfReadOptions::new(Some(vec!["AF".to_string()]), None, Some(4), None, Some(2));
    match register_table(InputFormat::Vcf, Some(ReadOptions::new(Some(given)))) {
        Ok(Registration::Vcf(options)) => {
            assert_eq!(options.info_fields, Some(vec!["AF".to_string()]));
            assert_eq!(options.format_fields, None);
            assert_eq!(options.thread_num, Some(4));
            assert_eq!(options.chunk_size, None);
            assert_eq!(options.concurrent_fetches, Some(2));
        },
        other => panic!("{:?}", other),
    }
}

#[test]
fn registration_of_genomic_formats() {
    let cases = [
        (InputFormat::Bam, "BAM"),
        (InputFormat::Cram, "CRAM"),
        (InputFormat::Fastq, "FASTQ"),
        (InputFormat::Fasta, "FASTA"),
        (InputFormat::Bed, "BED"),
        (InputFormat::Gff, "GFF"),
        (InputFormat::Gtf, "GTF"),
    ];
    for (format, name) in cases {
        match register_table(format, None) {
            Ok(Registration::Exon { format }) => assert_eq!(format, name),
            other => panic!("{:?}", other),
        }
    }
}

#[test]
fn registration_of_indexed_formats_fails() {
    assert!(matches!(register_table(InputFormat::IndexedVcf, None), Err(BioError::IndexedFormat)));
    assert!(matches!(register_table(InputFormat::IndexedBam, None), Err(BioError::IndexedFormat)));
}

#[test]
fn operand_without_full_stop_is_a_table() {
    match maybe_register_table("my_table".to_string(), "s1") {
        Ok(source) => {
            assert!(matches!(&source, TableSource::Registered(name) if name == "my_table"));
            assert_eq!(source.table_name(), "my_table");
        },
        other => panic!("{:?}", other),
    }
    assert!(matches!(maybe_register_table("".to_string(), "s1"), Ok(TableSource::Registered(_))));
}

#[test]
fn operand_with_extension_is_a_file() {
    match maybe_register_table("/tmp/Reads.Parquet".to_string(), "s2") {
        Ok(source) => {
            match &source {
                TableSource::File { path, table, format } => {
                    assert_eq!(path, "/tmp/Reads.Parquet");
                    assert_eq!(table, "s2");
                    assert_eq!(*format, InputFormat::Parquet);
                },
                other => panic!("{:?}", other),
            }
            assert_eq!(source.table_name(), "s2");
        },
        other => panic!("{:?}", other),
    }
}

#[test]
fn operand_with_unknown_extension_fails() {
    assert!(matches!(maybe_register_table("reads.txt".to_string(), "s1"), Err(BioError::UnsupportedFormat)));
    assert!(matches!(maybe_register_table("a.b".to_string(), "s1"), Err(BioError::UnsupportedFormat)));
}

#[test]
fn extensions_are_the_lowercase_names() {
    let formats = [
        InputFormat::Parquet,
        InputFormat::Csv,
        InputFormat::Bam,
        InputFormat::IndexedBam,
        InputFormat::Cram,
        InputFormat::Vcf,
        InputFormat::IndexedVcf,
        InputFormat::Fastq,
        InputFormat::Fasta,
        InputFormat::Bed,
        InputFormat::Gff,
        InputFormat::Gtf,
    ];
    for format in formats {
        assert_eq!(format_extension(format), format!(".{}", format.to_string()).to_lowercase());
    }
}

fn std_table_name(path: &str, format: InputFormat) -> String {
    path.to_lowercase()
        .split('/')
        .last()
        .unwrap()
        .to_string()
        .replace(&format!(".{}", format.to_string()).to_lowercase(), "")
        .replace(".", "_")
        .replace("-", "_")
}

#[test]
fn table_name_from_path() {
    assert_eq!(table_name(None, "/data/My-Reads.v2.PARQUET", InputFormat::Parquet), "my_reads_v2");
    assert_eq!(table_name(None, "calls.vcf.gz", InputFormat::Vcf), "calls_gz");
    assert_eq!(table_name(None, "a/b/c.csv", InputFormat::Csv), "c");
    assert_eq!(table_name(None, "a/b/", InputFormat::Csv), "");
    assert_eq!(table_name(None, "plain", InputFormat::Bed), "plain");
    assert_eq!(table_name(None, "x.bed.bed", InputFormat::Bed), "x");
    assert_eq!(table_name(None, "dir.csv/file.bam", InputFormat::Csv), "file_bam");
}

#[test]
fn table_name_agrees_with_text_replacement() {
    let paths = [
        "/data/My-Reads.v2.PARQUET",
        "calls.vcf.gz",
        "x.vcf.vcfvcf.vcf",
        "..csv.csv",
        "a-b-c.d.e.fasta",
        "nothing",
        "/",
        "",
        "sample.indexed_bam",
        "Ünï-cödé.GFF",
    ];
    let formats = [
        InputFormat::Parquet,
        InputFormat::Csv,
        InputFormat::Vcf,
        InputFormat::Fasta,
        InputFormat::IndexedBam,
        InputFormat::Gff,
    ];
    for path in paths {
        for format in formats {
            assert_eq!(table_name(None, path, format), std_table_name(path, format));
        }
    }
}

#[test]
fn table_name_from_lowercase_does_not_fold_case() {
    assert_eq!(table_name_from_lowercase("Reads.PARQUET", InputFormat::Parquet), "Reads_PARQUET");
}

#[test]
fn table_name_given() {
    assert_eq!(
        table_name(Some("Given-Name".to_string()), "/data/reads.parquet", InputFormat::Parquet),
        "Given-Name"
    );
}

#[test]
fn small_frames_stay_in_memory() {
    assert_eq!(MAX_IN_MEMORY_ROWS, 1024 * 1024);
    assert_eq!(register_frame("/tmp/catalog", "s1", 0), None);
    assert_eq!(register_frame("/tmp/catalog", "s1", MAX_IN_MEMORY_ROWS), None);
}

#[test]
fn large_frames_go_to_parquet() {
    assert_eq!(
        register_frame("/tmp/catalog", "s1", MAX_IN_MEMORY_ROWS + 1),
        Some("/tmp/catalog/s1.parquet".to_string())
    );
}

#[test]
fn plain_queries() {
    assert_eq!(select_all_query("count_overlaps_coverage"), "SELECT * FROM count_overlaps_coverage");
    assert_eq!(create_view_query("v", "SELECT 1"), "CREATE OR REPLACE VIEW v AS SELECT 1");
}
