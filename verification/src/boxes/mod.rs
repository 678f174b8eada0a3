//! Box type definitions for ISOBMFF structures.

pub mod jpeg;
pub mod maxr;
pub mod npck;
pub mod nump;
pub mod pmax;
pub mod snro;
pub mod pasp;
pub mod rloc;
pub mod lsel;
pub mod mfhd;
pub mod mfro;
pub mod nmhd;
pub mod mehd;
pub mod pitm;
pub mod prft;
pub mod mdhd;
pub mod smhd;
pub mod mvhd;
pub mod kind;
pub mod mime;
pub mod sdp;
pub mod mdia;
pub mod minf;
pub mod meta;
pub mod moof;
pub mod mfra;
pub mod paen;
pub mod schi;
pub mod sinf;
pub mod mvex;
pub mod moov;
pub mod ludt;
pub mod sdtp;
pub mod loudness;
pub mod loudness_layout;
pub mod leva;
pub mod ldep;
pub mod mdat;
pub mod pixi;
pub mod payt;
pub mod pdin;
pub mod padb;
pub mod oinf;
pub mod mdcv;
pub mod segr;
pub mod pssh;
pub mod schm;
pub mod sidx;
pub mod saiz;
pub mod senc;
pub mod saio;
pub mod sbgp;
pub mod sgpd;
pub mod sample_entry;
