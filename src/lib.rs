//! Semantic search core: canonical embedding text for each record kind,
//! relevance scoring and filtering of nearest-neighbour candidates, the merge
//! of per-kind results, and the lifecycle of the embedding producer.

pub mod canonical;
pub mod embedding;
pub mod equipment;
pub mod record_id;
pub mod scoring;
pub mod search;
pub mod storage;
pub mod text;

pub use canonical::{
    build_location_embedding_text, build_organization_embedding_text,
    build_organization_embedding_text_at, build_person_embedding_text,
    build_production_embedding_text,
};
pub use text::{join_strings, signed_text, trim_white_space, unsigned_text};
pub use scoring::{
    meets_floor, rank_candidates, score, Candidate, RecordKind, RelevanceConvention, Scored,
    CANDIDATE_LIMIT, RELEVANCE_FLOOR, RELEVANCE_SCALE,
};
pub use search::{
    assemble_results, initial_letters_of, person_initials, prepare_query, shape_people, LocationHit, SearchQuery,
    OrganizationHit, PersonHit, PersonResult, ProductionHit, SearchError, SearchResult,
};
pub use embedding::{EmbeddingError, EmbeddingService};
pub use equipment::{first_equal, parse_command, parse_item_with_quantity, process_command, EquipmentItem};
pub use storage::{is_public_key, object_url, public_read_policy, S3Config};
pub use record_id::{RecordKey, RecordRef};
