//! The options a caller passes to a range operation or to a table registration.

use vstd::prelude::*;

verus! {

/// How interval endpoints are compared.
#[derive(Clone, Copy, PartialEq, Eq, Debug, Structural)]
pub enum FilterOp {
    /// Closed intervals: touching endpoints overlap.
    Weak,
    /// Open intervals: touching endpoints do not overlap.
    Strict,
}

/// The range operations a caller may ask for.
#[derive(Clone, Copy, PartialEq, Eq, Debug, Structural)]
pub enum RangeOp {
    Overlap,
    Complement,
    Cluster,
    Nearest,
    Coverage,
    CountOverlaps,
    CountOverlapsNaive,
}

impl RangeOp {
    /// The display name of the operation.
    pub open spec fn name(self) -> Seq<char> {
        match self {
            RangeOp::Overlap => "Overlap"@,
            RangeOp::Nearest => "Nearest"@,
            RangeOp::Complement => "Complement"@,
            RangeOp::Cluster => "Cluster"@,
            RangeOp::Coverage => "Coverage"@,
            RangeOp::CountOverlaps => "Count overlaps"@,
            RangeOp::CountOverlapsNaive => "Count overlaps naive"@,
        }
    }

    /// Renders the operation as its display name.
    pub fn to_string(&self) -> (text: String)
        ensures
            text@ == self.name(),
    {
        match self {
            RangeOp::Overlap => "Overlap".to_string(),
            RangeOp::Nearest => "Nearest".to_string(),
            RangeOp::Complement => "Complement".to_string(),
            RangeOp::Cluster => "Cluster".to_string(),
            RangeOp::Coverage => "Coverage".to_string(),
            RangeOp::CountOverlaps => "Count overlaps".to_string(),
            RangeOp::CountOverlapsNaive => "Count overlaps naive".to_string(),
        }
    }
}

/// Everything a caller can say about one range operation. Only `range_op` is
/// mandatory; the resolver fills in what is left unset.
#[derive(Clone, Debug)]
pub struct RangeOptions {
    pub range_op: RangeOp,
    pub filter_op: Option<FilterOp>,
    pub suffixes: Option<(String, String)>,
    pub columns_1: Option<Vec<String>>,
    pub columns_2: Option<Vec<String>>,
    pub on_cols: Option<Vec<String>>,
    pub overlap_alg: Option<String>,
    pub streaming: Option<bool>,
}

impl RangeOptions {
    pub fn new(
        range_op: RangeOp,
        filter_op: Option<FilterOp>,
        suffixes: Option<(String, String)>,
        columns_1: Option<Vec<String>>,
        columns_2: Option<Vec<String>>,
        on_cols: Option<Vec<String>>,
        overlap_alg: Option<String>,
        streaming: Option<bool>,
    ) -> (options: Self)
        ensures
            options == (RangeOptions {
                range_op,
                filter_op,
                suffixes,
                columns_1,
                columns_2,
                on_cols,
                overlap_alg,
                streaming,
            }),
    {
        RangeOptions {
            range_op,
            filter_op,
            suffixes,
            columns_1,
            columns_2,
            on_cols,
            overlap_alg,
            streaming,
        }
    }

    /// Whether streaming mode was asked for; unset means no.
    pub open spec fn streaming_requested(&self) -> bool {
        self.streaming == Some(true)
    }

    /// What `to_string` renders: the word `streaming` and the effective flag.
    pub open spec fn description(&self) -> Seq<char> {
        if self.streaming_requested() {
            "streaming true"@
        } else {
            "streaming false"@
        }
    }

    /// Renders the options as `streaming true` or `streaming false`.
    pub fn to_string(&self) -> (text: String)
        ensures
            text@ == self.description(),
    {
        match self.streaming {
            Some(true) => "streaming true".to_string(),
            _ => "streaming false".to_string(),
        }
    }
}

/// The file formats a table can be registered from.
#[derive(Clone, Copy, PartialEq, Eq, Debug, Structural)]
pub enum InputFormat {
    Parquet,
    Csv,
    Bam,
    IndexedBam,
    Cram,
    Vcf,
    IndexedVcf,
    Fastq,
    Fasta,
    Bed,
    Gff,
    Gtf,
}

impl InputFormat {
    /// The display name of the format.
    pub open spec fn name(self) -> Seq<char> {
        match self {
            InputFormat::Parquet => "Parquet"@,
            InputFormat::Csv => "CSV"@,
            InputFormat::Bam => "BAM"@,
            InputFormat::Vcf => "VCF"@,
            InputFormat::Fastq => "FASTQ"@,
            InputFormat::Fasta => "FASTA"@,
            InputFormat::Bed => "BED"@,
            InputFormat::Gff => "GFF"@,
            InputFormat::Gtf => "GTF"@,
            InputFormat::IndexedBam => "INDEXED_BAM"@,
            InputFormat::IndexedVcf => "INDEXED_VCF"@,
            InputFormat::Cram => "CRAM"@,
        }
    }

    /// Renders the format as its display name.
    pub fn to_string(&self) -> (text: String)
        ensures
            text@ == self.name(),
    {
        match self {
            InputFormat::Parquet => "Parquet".to_string(),
            InputFormat::Csv => "CSV".to_string(),
            InputFormat::Bam => "BAM".to_string(),
            InputFormat::Vcf => "VCF".to_string(),
            InputFormat::Fastq => "FASTQ".to_string(),
            InputFormat::Fasta => "FASTA".to_string(),
            InputFormat::Bed => "BED".to_string(),
            InputFormat::Gff => "GFF".to_string(),
            InputFormat::Gtf => "GTF".to_string(),
            InputFormat::IndexedBam => "INDEXED_BAM".to_string(),
            InputFormat::IndexedVcf => "INDEXED_VCF".to_string(),
            InputFormat::Cram => "CRAM".to_string(),
        }
    }
}

/// A registered table: its name in the engine, its format and where it came from.
#[derive(Clone, PartialEq, Debug)]
pub struct BioTable {
    pub name: String,
    pub format: InputFormat,
    pub path: String,
}

/// Reader configuration, by format.
#[derive(Clone, Debug)]
pub struct ReadOptions {
    pub vcf_read_options: Option<VcfReadOptions>,
}

impl ReadOptions {
    pub fn new(vcf_read_options: Option<VcfReadOptions>) -> (options: Self)
        ensures
            options.vcf_read_options == vcf_read_options,
    {
        ReadOptions { vcf_read_options }
    }
}

/// Reader configuration for VCF files.
#[derive(Clone, Debug)]
pub struct VcfReadOptions {
    pub info_fields: Option<Vec<String>>,
    pub format_fields: Option<Vec<String>>,
    pub thread_num: Option<usize>,
    pub chunk_size: Option<usize>,
    pub concurrent_fetches: Option<usize>,
}

impl VcfReadOptions {
    pub fn new(
        info_fields: Option<Vec<String>>,
        format_fields: Option<Vec<String>>,
        thread_num: Option<usize>,
        chunk_size: Option<usize>,
        concurrent_fetches: Option<usize>,
    ) -> (options: Self)
        ensures
            options == (VcfReadOptions {
                info_fields,
                format_fields,
                thread_num,
                chunk_size,
                concurrent_fetches,
            }),
    {
        VcfReadOptions { info_fields, format_fields, thread_num, chunk_size, concurrent_fetches }
    }

    /// The options used when a VCF table is registered without any: every
    /// field read, one thread, chunks of 64, eight concurrent fetches.
    pub fn default() -> (options: Self)
        ensures
            options == (VcfReadOptions {
                info_fields: None,
                format_fields: None,
                thread_num: Some(1usize),
                chunk_size: Some(64usize),
                concurrent_fetches: Some(8usize),
            }),
    {
        VcfReadOptions {
            info_fields: None,
            format_fields: None,
            thread_num: Some(1),
            chunk_size: Some(64),
            concurrent_fetches: Some(8),
        }
    }
}

} // verus!
