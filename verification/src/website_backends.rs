//! The typed records of the two score services' payloads and the verified
//! parts of their decoding. The network fetches and the raw payload parsing
//! live with the caller; this library works on the typed records.

/// Backend types for <https://3icecream.com/>
pub mod sanbai;
/// Backend types for <http://skillattack.com/sa4>
pub mod skill_attack;
