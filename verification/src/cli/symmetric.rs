//! The creation of a symmetric key: from the options of the action to the
//! request that the engine carries out.

use vstd::prelude::*;
use vstd::utf8::encode_utf8;
use crate::access::Identity;
use crate::cli::error::{CliError, CliErrorView};
use crate::crypto::{base64_decode, base64_decoded};
use crate::decimal::{digits, to_decimal};
use crate::engine::{Engine, SYMMETRIC_USAGE, create_defect};
use crate::error::KmsError;
use crate::import::ImportRequest;
use crate::object::{
    AttributesView,
    CryptographicAlgorithm,
    KeyBlock,
    KeyFormatType,
    Links,
    LinksView,
    Object,
};
use crate::storage::{ObjectStore, RecordView, clone_tags};

verus! {

/// The families of symmetric keys that the action offers.
#[derive(Clone, Copy, Debug, PartialEq, Eq, Structural)]
pub enum SymmetricAlgorithm {
    Chacha20,
    Aes,
    Sha3,
    Shake,
}

/// Create a new symmetric key.
///
/// When `wrap_key_b64` is given, the key is made from those bytes;
/// otherwise it is generated at random with a length of `number_of_bits`.
/// Without either, a fresh 256-bit key is made. Tags can later be used to
/// find the key.
pub struct CreateKeyAction {
    /// The length of the generated random key or salt in bits.
    pub number_of_bits: Option<usize>,
    /// The symmetric key bytes or salt as a base 64 string.
    pub wrap_key_b64: Option<String>,
    /// The algorithm.
    pub algorithm: SymmetricAlgorithm,
    /// The tags to associate with the key.
    pub tags: Vec<String>,
}

/// What the action asks of the engine.
pub struct SymmetricKeyRequest {
    pub algorithm: CryptographicAlgorithm,
    pub number_of_bits: usize,
    /// The bytes to make the key from; without them it is generated.
    pub key_bytes: Option<Vec<u8>>,
}

/// The algorithm of a key of a family and a number of bits, where the
/// family has one for that number.
pub open spec fn algorithm_for(family: SymmetricAlgorithm, bits: usize) -> Option<
    CryptographicAlgorithm,
> {
    match family {
        SymmetricAlgorithm::Aes => Some(CryptographicAlgorithm::AES),
        SymmetricAlgorithm::Chacha20 => Some(CryptographicAlgorithm::ChaCha20),
        SymmetricAlgorithm::Sha3 => if bits == 224 {
            Some(CryptographicAlgorithm::SHA3224)
        } else if bits == 256 {
            Some(CryptographicAlgorithm::SHA3256)
        } else if bits == 384 {
            Some(CryptographicAlgorithm::SHA3384)
        } else if bits == 512 {
            Some(CryptographicAlgorithm::SHA3512)
        } else {
            None
        },
        SymmetricAlgorithm::Shake => if bits == 128 {
            Some(CryptographicAlgorithm::SHAKE128)
        } else if bits == 256 {
            Some(CryptographicAlgorithm::SHAKE256)
        } else {
            None
        },
    }
}

/// The text of the refusal of a number of bits for a family.
pub open spec fn bits_refusal(family: SymmetricAlgorithm, bits: usize) -> Seq<char> {
    match family {
        SymmetricAlgorithm::Shake => "invalid number of bits for shake "@ + digits(bits as nat),
        _ => "invalid number of bits for sha3 "@ + digits(bits as nat),
    }
}

/// What the options of the action ask for: the bytes that the base 64
/// text stands for and eight bits for each of them, or else the number of
/// bits given, or 256; and the algorithm of the family for that number.
pub open spec fn requested(
    number_of_bits: Option<usize>,
    wrap_key_b64: Option<Seq<u8>>,
    family: SymmetricAlgorithm,
) -> Result<(CryptographicAlgorithm, usize, Option<Seq<u8>>), CliErrorView> {
    let decoded = match wrap_key_b64 {
        Some(text) => base64_decoded(text),
        None => None,
    };
    if wrap_key_b64 is Some && (decoded is None || decoded->0.len() * 8 > usize::MAX) {
        Err(CliErrorView::Default("failed decoding the wrap key"@))
    } else {
        let bits = match decoded {
            Some(bytes) => (bytes.len() * 8) as usize,
            None => match number_of_bits {
                Some(n) => n,
                None => 256,
            },
        };
        match algorithm_for(family, bits) {
            Some(algorithm) => Ok((algorithm, bits, decoded)),
            None => Err(CliErrorView::Default(bits_refusal(family, bits))),
        }
    }
}

/// The algorithm of a key of a family and a number of bits.
pub fn select_algorithm(family: SymmetricAlgorithm, bits: usize) -> (r: Result<
    CryptographicAlgorithm,
    CliError,
>)
    ensures
        match r {
            Ok(a) => algorithm_for(family, bits) == Some(a),
            Err(e) => algorithm_for(family, bits) is None && e@ == CliErrorView::Default(
                bits_refusal(family, bits),
            ),
        },
{
    match family {
        SymmetricAlgorithm::Aes => Ok(CryptographicAlgorithm::AES),
        SymmetricAlgorithm::Chacha20 => Ok(CryptographicAlgorithm::ChaCha20),
        SymmetricAlgorithm::Sha3 => {
            if bits == 224 {
                Ok(CryptographicAlgorithm::SHA3224)
            } else if bits == 256 {
                Ok(CryptographicAlgorithm::SHA3256)
            } else if bits == 384 {
                Ok(CryptographicAlgorithm::SHA3384)
            } else if bits == 512 {
                Ok(CryptographicAlgorithm::SHA3512)
            } else {
                let mut text = String::from_str("invalid number of bits for sha3 ");
                text.append(to_decimal(bits as u64).as_str());
                Err(CliError::Default(text))
            }
        },
        SymmetricAlgorithm::Shake => {
            if bits == 128 {
                Ok(CryptographicAlgorithm::SHAKE128)
            } else if bits == 256 {
                Ok(CryptographicAlgorithm::SHAKE256)
            } else {
                let mut text = String::from_str("invalid number of bits for shake ");
                text.append(to_decimal(bits as u64).as_str());
                Err(CliError::Default(text))
            }
        },
    }
}

impl CreateKeyAction {
    /// The request that the action makes.
    pub fn request(&self) -> (r: Result<SymmetricKeyRequest, CliError>)
        ensures
            match r {
                Ok(q) => requested(
                    self.number_of_bits,
                    match self.wrap_key_b64 {
                        Some(t) => Some(encode_utf8(t@)),
                        None => None,
                    },
                    self.algorithm,
                ) == Ok::<(CryptographicAlgorithm, usize, Option<Seq<u8>>), CliErrorView>(
                    (
                        q.algorithm,
                        q.number_of_bits,
                        match q.key_bytes {
                            Some(b) => Some(b@),
                            None => None,
                        },
                    ),
                ),
                Err(e) => requested(
                    self.number_of_bits,
                    match self.wrap_key_b64 {
                        Some(t) => Some(encode_utf8(t@)),
                        None => None,
                    },
                    self.algorithm,
                ) == Err::<(CryptographicAlgorithm, usize, Option<Seq<u8>>), CliErrorView>(e@),
            },
    {
        let key_bytes = match &self.wrap_key_b64 {
            Some(text) => {
                match base64_decode(text.as_str().as_bytes()) {
                    Ok(bytes) => {
                        if bytes.len() > usize::MAX / 8 {
                            return Err(
                                CliError::Default(String::from_str("failed decoding the wrap key")),
                            );
                        }
                        Some(bytes)
                    },
                    Err(_) => {
                        return Err(
                            CliError::Default(String::from_str("failed decoding the wrap key")),
                        );
                    },
                }
            },
            None => None,
        };
        let number_of_bits = match &key_bytes {
            Some(bytes) => bytes.len() * 8,
            None => match self.number_of_bits {
                Some(n) => n,
                None => 256,
            },
        };
        match select_algorithm(self.algorithm, number_of_bits) {
            Ok(algorithm) => Ok(SymmetricKeyRequest { algorithm, number_of_bits, key_bytes }),
            Err(e) => Err(e),
        }
    }

    /// Carries the action out on an engine, for a caller: a key made from
    /// given bytes is imported as it is, any other is created by the
    /// engine, which checks its length. The answer is the identifier of
    /// the new key, whose record is the only change. A key made from
    /// given bytes is refused by no reliable backend; any other is refused
    /// with the defect that the engine finds in it.
    pub fn run<S: ObjectStore>(&self, engine: &mut Engine<S>, caller: &Identity, now: u64) -> (r:
        Result<String, CliError>)
        requires
            old(engine).well_formed(),
        ensures
            final(engine).well_formed(),
            final(engine).store.reliable() == old(engine).store.reliable(),
            ({
                let asked = requested(
                    self.number_of_bits,
                    match self.wrap_key_b64 {
                        Some(t) => Some(encode_utf8(t@)),
                        None => None,
                    },
                    self.algorithm,
                );
                match r {
                    Ok(id) => {
                        let made = final(engine).records()[id@].object;
                        &&& asked is Ok
                        &&& !old(engine).records().dom().contains(id@)
                        &&& made == crate::engine::symmetric_key(
                            asked->Ok_0.0,
                            asked->Ok_0.1,
                            made.bytes(),
                        )
                        &&& asked->Ok_0.2 is Some ==> made.bytes() == asked->Ok_0.2->0
                        &&& asked->Ok_0.2 is None ==> made.bytes().len() * 8 == asked->Ok_0.1
                        &&& asked->Ok_0.2 is None ==> create_defect(
                            asked->Ok_0.0,
                            asked->Ok_0.1,
                            None,
                        ) is None
                        &&& final(engine).records() == old(engine).records().insert(
                            id@,
                            RecordView::fresh(
                                id@,
                                made,
                                AttributesView::of(made, SYMMETRIC_USAGE, LinksView::none()),
                                crate::storage::tag_set(self.tags@),
                                caller@,
                                now,
                            ),
                        )
                    },
                    Err(e) => {
                        &&& final(engine).records() == old(engine).records()
                        &&& match asked {
                            Err(fault) => e@ == fault,
                            Ok((algorithm, bits, bytes)) => {
                                ||| (e@ == CliErrorView::Kms(KmsError::StorageError)
                                    && !old(engine).store.reliable())
                                ||| (bytes is None && match create_defect(algorithm, bits, None) {
                                    Some(defect) => e@ == CliErrorView::Kms(defect),
                                    None => e@ == CliErrorView::Kms(KmsError::Internal),
                                })
                            },
                        }
                    },
                }
            }),
    {
        let request = match self.request() {
            Ok(q) => q,
            Err(e) => {
                return Err(e);
            },
        };
        let tags = clone_tags(&self.tags);
        let ghost before = engine.records();
        match request.key_bytes {
            Some(bytes) => {
                let object = Object::SymmetricKey {
                    key_block: KeyBlock {
                        key_format_type: KeyFormatType::Raw,
                        key_material: bytes,
                        cryptographic_algorithm: Some(request.algorithm),
                        cryptographic_length: Some(request.number_of_bits),
                        key_wrapping_data: None,
                    },
                };
                let import = ImportRequest {
                    id: None,
                    object,
                    unwrap: false,
                    replace_existing: false,
                    tags,
                    links: Links::none(),
                };
                match engine.import(import, caller, now) {
                    Ok(id) => {
                        assert(final(engine).records().dom() =~= before.dom().insert(id@));
                        Ok(id)
                    },
                    Err(e) => {
                        assert(e != KmsError::StorageError ==> final(engine).records() == before);
                        Err(CliError::Kms(e))
                    },
                }
            },
            None => {
                match engine.create(
                    request.algorithm,
                    request.number_of_bits,
                    None,
                    tags,
                    caller,
                    now,
                ) {
                    Ok(id) => {
                        assert(final(engine).records().dom() =~= before.dom().insert(id@));
                        Ok(id)
                    },
                    Err(e) => Err(CliError::Kms(e)),
                }
            },
        }
    }
}

} // verus!
