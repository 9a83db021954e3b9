//! What is decided when a table is registered: the format behind a path, the
//! name of the table, how the engine is to read it, and when a table held in
//! memory is moved to disk instead.

use vstd::prelude::*;
use vstd::string::*;
use crate::error::BioError;
use crate::option::{InputFormat, ReadOptions, VcfReadOptions};
use crate::text::{
    after_last, chars_of, contains_char, ends_with, has_suffix, last_part, lowercase, remove_all,
    replace_char, string_of, to_lowercase, with_char_replaced, without,
};

verus! {

/// The most rows of a table that is kept in memory.
pub const MAX_IN_MEMORY_ROWS: usize = 1048576;

/// The format that a lowercase path names by its ending, if it names one.
pub open spec fn format_of_lowercase(path: Seq<char>) -> Option<InputFormat> {
    if has_suffix(path, ".parquet"@) {
        Some(InputFormat::Parquet)
    } else if has_suffix(path, ".csv"@) {
        Some(InputFormat::Csv)
    } else if has_suffix(path, ".bed"@) {
        Some(InputFormat::Bed)
    } else if has_suffix(path, ".vcf"@) || has_suffix(path, ".vcf.gz"@) || has_suffix(
        path,
        ".vcf.bgz"@,
    ) {
        Some(InputFormat::Vcf)
    } else {
        None
    }
}

/// The format that a path in lowercase names by its ending: Parquet, CSV,
/// BED or VCF, the last also compressed. Any other ending is an error.
pub fn input_format_of_lowercase(path: &str) -> (result: Result<InputFormat, BioError>)
    ensures
        match format_of_lowercase(path@) {
            Some(format) => result == Ok::<InputFormat, BioError>(format),
            None => result == Err::<InputFormat, BioError>(BioError::UnsupportedFormat),
        },
{
    let chars = chars_of(path);
    if ends_with(&chars, ".parquet") {
        Ok(InputFormat::Parquet)
    } else if ends_with(&chars, ".csv") {
        Ok(InputFormat::Csv)
    } else if ends_with(&chars, ".bed") {
        Ok(InputFormat::Bed)
    } else if ends_with(&chars, ".vcf") || ends_with(&chars, ".vcf.gz") || ends_with(
        &chars,
        ".vcf.bgz",
    ) {
        Ok(InputFormat::Vcf)
    } else {
        Err(BioError::UnsupportedFormat)
    }
}

/// The format that a path names by its ending, whatever the case of its
/// letters.
pub fn get_input_format(path: &str) -> (result: Result<InputFormat, BioError>)
    ensures
        match format_of_lowercase(lowercase(path@)) {
            Some(format) => result == Ok::<InputFormat, BioError>(format),
            None => result == Err::<InputFormat, BioError>(BioError::UnsupportedFormat),
        },
{
    let path = to_lowercase(path);
    input_format_of_lowercase(path.as_str())
}

/// How the engine is to read a table in.
#[derive(Debug)]
pub enum Registration {
    /// As a Parquet file, with the engine's defaults.
    Parquet,
    /// As a CSV file with the given delimiter, with or without a header line.
    Csv { delimiter: u8, has_header: bool },
    /// As a VCF file, with the given options.
    Vcf(VcfReadOptions),
    /// By the reader for genomic formats, under the given format name.
    Exon { format: String },
}

/// The VCF options in force: those given, or the defaults.
pub open spec fn vcf_options_of(read_options: Option<ReadOptions>) -> VcfReadOptions {
    match read_options {
        Some(ReadOptions { vcf_read_options: Some(options) }) => options,
        _ => VcfReadOptions {
            info_fields: None,
            format_fields: None,
            thread_num: Some(1usize),
            chunk_size: Some(64usize),
            concurrent_fetches: Some(8usize),
        },
    }
}

/// The format is one of the indexed variants.
pub open spec fn is_indexed(format: InputFormat) -> bool {
    format == InputFormat::IndexedVcf || format == InputFormat::IndexedBam
}

/// Decides how a table of the given format is registered. CSV is read with a
/// comma as delimiter and a header line. VCF is read with the options given
/// or, without any, the defaults. The other genomic formats go to their
/// reader under the display name of the format. The indexed variants are
/// an error.
pub fn register_table(format: InputFormat, read_options: Option<ReadOptions>) -> (result: Result<
    Registration,
    BioError,
>)
    ensures
        is_indexed(format) ==> (result matches Err(e) && e == BioError::IndexedFormat),
        !is_indexed(format) ==> result is Ok,
        result matches Ok(plan) ==> match format {
            InputFormat::Parquet => plan is Parquet,
            InputFormat::Csv => plan matches Registration::Csv { delimiter, has_header }
                && delimiter == 44 && has_header,
            InputFormat::Vcf => plan matches Registration::Vcf(options) && options
                == vcf_options_of(read_options),
            _ => plan matches Registration::Exon { format: name } && name@ == format.name(),
        },
{
    match format {
        InputFormat::Parquet => Ok(Registration::Parquet),
        InputFormat::Csv => Ok(Registration::Csv { delimiter: 44, has_header: true }),
        InputFormat::Vcf => {
            let vcf_read_options = match read_options {
                Some(options) => match options.vcf_read_options {
                    Some(vcf_read_options) => vcf_read_options,
                    None => VcfReadOptions::default(),
                },
                None => VcfReadOptions::default(),
            };
            Ok(Registration::Vcf(vcf_read_options))
        },
        InputFormat::Bam
        | InputFormat::Cram
        | InputFormat::Fastq
        | InputFormat::Fasta
        | InputFormat::Bed
        | InputFormat::Gff
        | InputFormat::Gtf => Ok(Registration::Exon { format: format.to_string() }),
        InputFormat::IndexedVcf | InputFormat::IndexedBam => Err(BioError::IndexedFormat),
    }
}

/// Where the rows of an operand come from.
#[derive(Debug)]
pub enum TableSource {
    /// From a table that is registered already, under this name.
    Registered(String),
    /// From the file at `path`, of the given format, to be registered as
    /// `table`.
    File { path: String, table: String, format: InputFormat },
}

impl TableSource {
    /// The name of the table that the operation reads.
    pub open spec fn table(self) -> Seq<char> {
        match self {
            TableSource::Registered(name) => name@,
            TableSource::File { table, .. } => table@,
        }
    }

    /// The name of the table that the operation reads.
    pub fn table_name(&self) -> (name: String)
        ensures
            name@ == self.table(),
    {
        match self {
            TableSource::Registered(name) => name.clone(),
            TableSource::File { table, .. } => table.clone(),
        }
    }
}

/// Decides, for text in lowercase, what an operand names: text without a
/// full stop is the name of a registered table and is passed through; any
/// other text is the path of a file, to be registered under the default name
/// if its ending names a format.
pub fn table_source_of_lowercase(
    df_path_or_table: String,
    lowered: &str,
    default_table: &str,
) -> (result: Result<TableSource, BioError>)
    ensures
        !df_path_or_table@.contains('.') ==> (result matches Ok(TableSource::Registered(name))
            && name@ == df_path_or_table@),
        df_path_or_table@.contains('.') ==> match format_of_lowercase(lowered@) {
            Some(found) => result matches Ok(TableSource::File { path, table, format })
                && path@ == df_path_or_table@ && table@ == default_table@ && format == found,
            None => result matches Err(e) && e == BioError::UnsupportedFormat,
        },
{
    if !contains_char(df_path_or_table.as_str(), '.') {
        return Ok(TableSource::Registered(df_path_or_table));
    }
    match input_format_of_lowercase(lowered) {
        Ok(format) => Ok(
            TableSource::File { path: df_path_or_table, table: default_table.to_string(), format },
        ),
        Err(e) => Err(e),
    }
}

/// Decides what an operand names: a registered table, or a file to register
/// under the default name.
pub fn maybe_register_table(df_path_or_table: String, default_table: &str) -> (result: Result<
    TableSource,
    BioError,
>)
    ensures
        !df_path_or_table@.contains('.') ==> (result matches Ok(TableSource::Registered(name))
            && name@ == df_path_or_table@),
        df_path_or_table@.contains('.') ==> match format_of_lowercase(
            lowercase(df_path_or_table@),
        ) {
            Some(found) => result matches Ok(TableSource::File { path, table, format })
                && path@ == df_path_or_table@ && table@ == default_table@ && format == found,
            None => result matches Err(e) && e == BioError::UnsupportedFormat,
        },
{
    let lowered = to_lowercase(df_path_or_table.as_str());
    table_source_of_lowercase(df_path_or_table, lowered.as_str(), default_table)
}

/// The ending of the files of a format: a full stop and the display name of
/// the format in lowercase.
pub open spec fn extension(format: InputFormat) -> Seq<char> {
    match format {
        InputFormat::Parquet => ".parquet"@,
        InputFormat::Csv => ".csv"@,
        InputFormat::Bam => ".bam"@,
        InputFormat::IndexedBam => ".indexed_bam"@,
        InputFormat::Cram => ".cram"@,
        InputFormat::Vcf => ".vcf"@,
        InputFormat::IndexedVcf => ".indexed_vcf"@,
        InputFormat::Fastq => ".fastq"@,
        InputFormat::Fasta => ".fasta"@,
        InputFormat::Bed => ".bed"@,
        InputFormat::Gff => ".gff"@,
        InputFormat::Gtf => ".gtf"@,
    }
}

/// The ending of the files of a format.
pub fn format_extension(format: InputFormat) -> (ending: &'static str)
    ensures
        ending@ == extension(format),
{
    match format {
        InputFormat::Parquet => ".parquet",
        InputFormat::Csv => ".csv",
        InputFormat::Bam => ".bam",
        InputFormat::IndexedBam => ".indexed_bam",
        InputFormat::Cram => ".cram",
        InputFormat::Vcf => ".vcf",
        InputFormat::IndexedVcf => ".indexed_vcf",
        InputFormat::Fastq => ".fastq",
        InputFormat::Fasta => ".fasta",
        InputFormat::Bed => ".bed",
        InputFormat::Gff => ".gff",
        InputFormat::Gtf => ".gtf",
    }
}

/// The name that a table gets from a lowercase path: the part after the last
/// slash, without the ending of the format wherever it occurs, and with an
/// underscore for every full stop and every hyphen.
pub open spec fn table_name_of_lowercase(path: Seq<char>, format: InputFormat) -> Seq<char> {
    with_char_replaced(
        with_char_replaced(without(last_part(path, '/'), extension(format)), '.', '_'),
        '-',
        '_',
    )
}

/// The name that a table gets from a path in lowercase.
pub fn table_name_from_lowercase(path: &str, format: InputFormat) -> (name: String)
    ensures
        name@ == table_name_of_lowercase(path@, format),
{
    let chars = chars_of(path);
    let file = after_last(&chars, '/');
    let ending = chars_of(format_extension(format));
    let stem = remove_all(&file, &ending);
    let no_stops = replace_char(&stem, '.', '_');
    let no_hyphens = replace_char(&no_stops, '-', '_');
    string_of(&no_hyphens)
}

/// The name under which a table is registered: the name given, or without
/// one the name that its path gives it.
pub fn table_name(name: Option<String>, path: &str, format: InputFormat) -> (table: String)
    ensures
        table@ == match name {
            Some(given) => given@,
            None => table_name_of_lowercase(lowercase(path@), format),
        },
{
    match name {
        Some(given) => given,
        None => {
            let lowered = to_lowercase(path);
            table_name_from_lowercase(lowered.as_str(), format)
        },
    }
}

/// The path of the Parquet file that a table is moved to.
pub open spec fn spill_path(catalog_dir: Seq<char>, table_name: Seq<char>) -> Seq<char> {
    catalog_dir + "/"@ + table_name + ".parquet"@
}

/// Decides whether a table that was registered from memory stays there: one
/// of more than [`MAX_IN_MEMORY_ROWS`] rows is written to a Parquet file in
/// the catalog directory and registered from there, and this returns the path
/// of that file.
pub fn register_frame(catalog_dir: &str, table_name: &str, table_size: usize) -> (spill: Option<
    String,
>)
    ensures
        table_size <= MAX_IN_MEMORY_ROWS ==> spill is None,
        table_size > MAX_IN_MEMORY_ROWS ==> (spill matches Some(path) && path@ == spill_path(
            catalog_dir@,
            table_name@,
        )),
{
    if table_size > MAX_IN_MEMORY_ROWS {
        let mut path = catalog_dir.to_string();
        path.append("/");
        path.append(table_name);
        path.append(".parquet");
        Some(path)
    } else {
        None
    }
}

/// The query that reads all of a table.
pub open spec fn select_all_sql(table_name: Seq<char>) -> Seq<char> {
    "SELECT * FROM "@ + table_name
}

/// The query that reads all of a table.
pub fn select_all_query(table_name: &str) -> (query: String)
    ensures
        query@ == select_all_sql(table_name@),
{
    let mut query = "SELECT * FROM ".to_string();
    query.append(table_name);
    query
}

/// The statement that defines a view, in place of one of the same name.
pub open spec fn create_view_sql(name: Seq<char>, query: Seq<char>) -> Seq<char> {
    "CREATE OR REPLACE VIEW "@ + name + " AS "@ + query
}

/// The statement that defines a view, in place of one of the same name.
pub fn create_view_query(name: &str, query: &str) -> (statement: String)
    ensures
        statement@ == create_view_sql(name@, query@),
{
    let mut statement = "CREATE OR REPLACE VIEW ".to_string();
    statement.append(name);
    statement.append(" AS ");
    statement.append(query);
    statement
}

} // verus!
