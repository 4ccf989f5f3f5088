//! A queryable, strand-partitioned index of genomic intervals built from
//! aligned sequencing reads.
//!
//! Alignment records are converted into stranded intervals ([`contig::Contig`])
//! under a chosen library-protocol interpretation, and inserted into one of two
//! strand buckets of an [`rqmap::RQMap`], which then answers point and range
//! quantification queries.

/// Strand of a genomic feature.
pub mod strand;

/// Failure taxonomy for record-to-interval conversion.
pub mod errors;

/// Library-protocol selector and query strand selector.
pub mod library_strategy;

/// Plain-value model of one alignment record, and read-name ordering.
pub mod record;

/// Reference identifier / scaffold name translation tables.
pub mod scaffold_dict;

/// Genomic intervals and positions, their conversions and transforms.
pub mod contig;

/// Converting alignment records into intervals.
pub mod locus;

/// Decomposing an interval into its constituent positions.
pub mod positions;

/// The two-bucket interval index, consumed as an associative range
/// container.
pub mod annot_index;

/// Building the read-query map and answering quantification queries.
pub mod rqmap;

/// Building and editing header text records.
pub mod header_text;
