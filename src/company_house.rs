//! Records of the company registry, as the logic reads them.
pub mod company_house_response_types;
pub mod company_house_streaming_types;
