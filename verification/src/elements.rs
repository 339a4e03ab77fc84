//! The identifiers of the EBML and Matroska elements.
//!
//! An identifier is written as it stands in a stream: its length marker is
//! part of the number.

use vstd::prelude::*;

verus! {

// EBML header.

pub const EBML: u64 = 0x1A45DFA3;
pub const EBML_VERSION: u64 = 0x4286;
pub const EBML_READ_VERSION: u64 = 0x42F7;
pub const EBML_MAX_ID_LENGTH: u64 = 0x42F2;
pub const EBML_MAX_SIZE_LENGTH: u64 = 0x42F3;
pub const DOC_TYPE: u64 = 0x4282;
pub const DOC_TYPE_VERSION: u64 = 0x4287;
pub const DOC_TYPE_READ_VERSION: u64 = 0x4285;

// Root element.

pub const SEGMENT: u64 = 0x18538067;

// Meta Seek Information.

pub const SEEK_HEAD: u64 = 0x114D9B74;
pub const SEEK: u64 = 0x4DBB;
pub const SEEK_ID: u64 = 0x53AB;
pub const SEEK_POSITION: u64 = 0x53AC;

// Segment Information.

pub const INFO: u64 = 0x1549A966;
pub const SEGMENT_UID: u64 = 0x73A4;
pub const SEGMENT_FILENAME: u64 = 0x7384;
pub const PREV_UID: u64 = 0x3CB923;
pub const PREV_FILENAME: u64 = 0x3C83AB;
pub const NEXT_UID: u64 = 0x3EB923;
pub const NEXT_FILENAME: u64 = 0x3E83BB;
pub const SEGMENT_FAMILY: u64 = 0x4444;
pub const CHAPTER_TRANSLATE: u64 = 0x6924;
pub const CHAPTER_TRANSLATE_EDITION_UID: u64 = 0x69FC;
pub const CHAPTER_TRANSLATE_CODEC: u64 = 0x69BF;
pub const CHAPTER_TRANSLATE_ID: u64 = 0x69A5;
pub const TIMECODE_SCALE: u64 = 0x2AD7B1;
pub const DURATION: u64 = 0x4489;
pub const DATE_UTC: u64 = 0x4461;
pub const TITLE: u64 = 0x7BA9;
pub const MUXING_APP: u64 = 0x4D80;
pub const WRITING_APP: u64 = 0x5741;

// Track information.

pub const TRACKS: u64 = 0x1654AE6B;
pub const TRACK_ENTRY: u64 = 0xAE;

pub const TRACK_NUMBER: u64 = 0xD7;
pub const TRACK_UID: u64 = 0x73C5;
pub const TRACK_TYPE: u64 = 0x83;
pub const FLAG_ENABLED: u64 = 0xB9;
pub const FLAG_DEFAULT: u64 = 0x88;
pub const FLAG_FORCED: u64 = 0x55AA;
pub const FLAG_LACING: u64 = 0x9C;
pub const MIN_CACHE: u64 = 0x6DE7;
pub const MAX_CACHE: u64 = 0x6DF8;
pub const DEFAULT_DURATION: u64 = 0x23E383;
pub const DEFAULT_DECODED_FIELD_DURATION: u64 = 0x234E7A;
pub const TRACK_TIMECODE_SCALE: u64 = 0x23314F;
pub const TRACK_OFFSET: u64 = 0x537F;
pub const MAX_BLOCK_ADDITION_ID: u64 = 0x55EE;
pub const NAME: u64 = 0x536E;
pub const LANGUAGE: u64 = 0x22B59C;
pub const CODEC_ID: u64 = 0x86;
pub const CODEC_PRIVATE: u64 = 0x63A2;
pub const CODEC_NAME: u64 = 0x258688;
pub const ATTACHMENT_LINK: u64 = 0x7446;
pub const CODEC_SETTINGS: u64 = 0x3A9697;
pub const CODEC_INFO_URL: u64 = 0x3B4040;
pub const CODEC_DOWNLOAD_URL: u64 = 0x26B240;
pub const CODEC_DECODE_ALL: u64 = 0xAA;
pub const TRACK_OVERLAY: u64 = 0x6FAB;
pub const CODEC_DELAY: u64 = 0x56AA;
pub const SEEK_PRE_ROLL: u64 = 0x56BB;

pub const TRACK_TRANSLATE: u64 = 0x6624;
pub const TRACK_TRANSLATE_EDITION_UID: u64 = 0x66FC;
pub const TRACK_TRANSLATE_CODEC: u64 = 0x66BF;
pub const TRACK_TRANSLATE_TRACK_ID: u64 = 0x66A5;

pub const VIDEO: u64 = 0xE0;
pub const FLAG_INTERLACED: u64 = 0x9A;
pub const FIELD_ORDER: u64 = 0x9D;
pub const STEREO_MODE: u64 = 0x53B8;
pub const ALPHA_MODE: u64 = 0x53C0;
pub const OLD_STEREO_MODE: u64 = 0x53B9;
pub const PIXEL_WIDTH: u64 = 0xB0;
pub const PIXEL_HEIGHT: u64 = 0xBA;
pub const PIXEL_CROP_BOTTOM: u64 = 0x54AA;
pub const PIXEL_CROP_TOP: u64 = 0x54BB;
pub const PIXEL_CROP_LEFT: u64 = 0x54CC;
pub const PIXEL_CROP_RIGHT: u64 = 0x54DD;
pub const DISPLAY_WIDTH: u64 = 0x54B0;
pub const DISPLAY_HEIGHT: u64 = 0x54BA;
pub const DISPLAY_UNIT: u64 = 0x54B2;
pub const ASPECT_RATIO_TYPE: u64 = 0x54B3;
pub const COLOUR_SPACE: u64 = 0x2EB524;
pub const GAMMA_VALUE: u64 = 0x2FB523;
pub const FRAME_RATE: u64 = 0x2383E3;

pub const COLOUR: u64 = 0x55B0;
pub const MATRIX_COEFFICIENTS: u64 = 0x55B1;
pub const BITS_PER_CHANNEL: u64 = 0x55B2;
pub const CHROMA_SUBSAMPLING_HORZ: u64 = 0x55B3;
pub const CHROMA_SUBSAMPLING_VERT: u64 = 0x55B4;
pub const CB_SUBSAMPLING_HORZ: u64 = 0x55B5;
pub const CB_SUBSAMPLING_VERT: u64 = 0x55B6;
pub const CHROMA_SITING_HORZ: u64 = 0x55B7;
pub const CHROMA_SITING_VERT: u64 = 0x55B8;
pub const RANGE: u64 = 0x55B9;
pub const TRANSFER_CHARACTERISTICS: u64 = 0x55BA;
pub const PRIMARIES: u64 = 0x55BB;
pub const MAX_CLL: u64 = 0x55BC;
pub const MAX_FALL: u64 = 0x55BD;

pub const MASTERING_METADATA: u64 = 0x55D0;
pub const PRIMARY_RCHROMATICITY_X: u64 = 0x55D1;
pub const PRIMARY_RCHROMATICITY_Y: u64 = 0x55D2;
pub const PRIMARY_GCHROMATICITY_X: u64 = 0x55D3;
pub const PRIMARY_GCHROMATICITY_Y: u64 = 0x55D4;
pub const PRIMARY_BCHROMATICITY_X: u64 = 0x55D5;
pub const PRIMARY_BCHROMATICITY_Y: u64 = 0x55D6;
pub const WHITE_POINT_CHROMATICITY_X: u64 = 0x55D7;
pub const WHITE_POINT_CHROMATICITY_Y: u64 = 0x55D8;
pub const LUMINANCE_MAX: u64 = 0x55D9;
pub const LUMINANCE_MIN: u64 = 0x55DA;

pub const AUDIO: u64 = 0xE1;
pub const SAMPLING_FREQUENCY: u64 = 0xB5;
pub const OUTPUT_SAMPLING_FREQUENCY: u64 = 0x78B5;
pub const CHANNELS: u64 = 0x9F;
pub const CHANNEL_POSITIONS: u64 = 0x7D7B;
pub const BIT_DEPTH: u64 = 0x6264;

pub const TRACK_OPERATION: u64 = 0xE2;

pub const TRACK_COMBINE_PLANES: u64 = 0xE3;
pub const TRACK_PLANE: u64 = 0xE4;
pub const TRACK_PLANE_UID: u64 = 0xE5;
pub const TRACK_PLANE_TYPE: u64 = 0xE6;

pub const TRACK_JOIN_BLOCKS: u64 = 0xE9;
pub const TRACK_JOIN_UID: u64 = 0xED;
pub const TRICK_TRACK_UID: u64 = 0xC0;
pub const TRICK_TRACK_SEGMENT_UID: u64 = 0xC1;
pub const TRICK_TRACK_FLAG: u64 = 0xC6;
pub const TRICK_MASTER_TRACK_UID: u64 = 0xC7;
pub const TRICK_MASTER_TRACK_SEGMENT_UID: u64 = 0xC4;

pub const CONTENT_ENCODINGS: u64 = 0x6D80;
pub const CONTENT_ENCODING: u64 = 0x6240;
pub const CONTENT_ENCODING_ORDER: u64 = 0x5031;
pub const CONTENT_ENCODING_SCOPE: u64 = 0x5032;
pub const CONTENT_ENCODING_TYPE: u64 = 0x5033;

pub const CONTENT_COMPRESSION: u64 = 0x5034;
pub const CONTENT_COMP_ALGO: u64 = 0x4254;
pub const CONTENT_COMP_SETTINGS: u64 = 0x4255;

pub const CONTENT_ENCRYPTION: u64 = 0x5035;
pub const CONTENT_ENC_ALGO: u64 = 0x47E1;
pub const CONTENT_ENC_KEY_ID: u64 = 0x47E2;
pub const CONTENT_SIGNATURE: u64 = 0x47E3;
pub const CONTENT_SIG_KEY_ID: u64 = 0x47E4;
pub const CONTENT_SIG_ALGO: u64 = 0x47E5;
pub const CONTENT_SIG_HASH_ALGO: u64 = 0x47E6;

// Other top-level elements.

pub const CHAPTERS: u64 = 0x1043A770;
pub const ATTACHMENTS: u64 = 0x1941A469;
pub const TAGS: u64 = 0x1254C367;

// Cueing data.

pub const CUES: u64 = 0x1C53BB6B;
pub const CUE_POINT: u64 = 0xBB;
pub const CUE_TIME: u64 = 0xB3;
pub const CUE_TRACK_POSITIONS: u64 = 0xB7;
pub const CUE_TRACK: u64 = 0xF7;
pub const CUE_CLUSTER_POSITION: u64 = 0xF1;
pub const CUE_RELATIVE_POSITION: u64 = 0xF0;
pub const CUE_DURATION: u64 = 0xB2;
pub const CUE_BLOCK_NUMBER: u64 = 0x5378;
pub const CUE_CODEC_STATE: u64 = 0xEA;
pub const CUE_REFERENCE: u64 = 0xDB;
pub const CUE_REF_TIME: u64 = 0x96;
pub const CUE_REF_CLUSTER: u64 = 0x97;
pub const CUE_REF_NUMBER: u64 = 0x535F;
pub const CUE_REF_CODEC_STATE: u64 = 0xEB;

// Cluster data.

pub const CLUSTER: u64 = 0x1F43B675;
pub const TIMECODE: u64 = 0xE7;
pub const SILENT_TRACKS: u64 = 0x5854;
pub const SILENT_TRACK_NUMBER: u64 = 0x58D7;
pub const POSITION: u64 = 0xA7;
pub const PREV_SIZE: u64 = 0xAB;
pub const SIMPLE_BLOCK: u64 = 0xA3;
pub const BLOCK_GROUP: u64 = 0xA0;
pub const BLOCK: u64 = 0xA1;
pub const BLOCK_VIRTUAL: u64 = 0xA2;
pub const BLOCK_ADDITIONS: u64 = 0x75A1;
pub const BLOCK_MORE: u64 = 0xA6;
pub const BLOCK_ADD_ID: u64 = 0xEE;
pub const BLOCK_ADDITIONAL: u64 = 0xA5;
pub const BLOCK_DURATION: u64 = 0x9B;
pub const REFERENCE_PRIORITY: u64 = 0xFA;
pub const REFERENCE_BLOCK: u64 = 0xFB;
pub const REFERENCE_VIRTUAL: u64 = 0xFD;
pub const CODEC_STATE: u64 = 0xA4;
pub const DISCARD_PADDING: u64 = 0x75A2;
pub const SLICES: u64 = 0x8E;
pub const TIME_SLICE: u64 = 0xE8;
pub const LACE_NUMBER: u64 = 0xCC;
pub const FRAME_NUMBER: u64 = 0xCD;
pub const BLOCK_ADDITIONID: u64 = 0xCB;
pub const DELAY: u64 = 0xCE;
pub const SLICE_DURATION: u64 = 0xCF;
pub const REFERENCE_FRAME: u64 = 0xC8;
pub const REFERENCE_OFFSET: u64 = 0xC9;
pub const REFERENCE_TIMECODE: u64 = 0xCA;
pub const ENCRYPTED_BLOCK: u64 = 0xAF;

} // verus!
