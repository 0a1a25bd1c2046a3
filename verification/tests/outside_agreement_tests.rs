//! Holds what the library says of write access against the `solana_sdk`
//! message types, on many small messages.

use carbon_core::message::{
    CompiledInstruction, LegacyMessage, LoadedAddresses, MessageHeader, V0Message,
    VersionedMessage,
};
use carbon_core::pubkey::Pubkey;
use carbon_core::resolver::resolve;
use carbon_core::transformers::extract_account_metas;

const LOADER_BYTES: [u8; 32] = [
    2, 168, 246, 145, 78, 136, 161, 176, 226, 16, 21, 62, 247, 99, 174, 43, 0, 194, 185, 61, 22,
    193, 36, 210, 192, 83, 122, 16, 4, 128, 0, 0,
];

fn key(n: u8) -> Pubkey {
    Pubkey::new_from_array([n; 32])
}

fn saturating_sub(a: usize, b: usize) -> usize {
    if a >= b {
        a - b
    } else {
        0
    }
}

fn called_as_program(instructions: &[CompiledInstruction], index: usize) -> bool {
    instructions.iter().any(|instruction| instruction.program_id_index as usize == index)
}

fn loader_present(keys: &[Pubkey]) -> bool {
    keys.iter().any(|k| k.to_bytes() == LOADER_BYTES)
}

fn legacy_rule(message: &LegacyMessage, index: usize) -> bool {
    let h = &message.header;
    let by_header = index
        < saturating_sub(h.num_required_signatures as usize, h.num_readonly_signed_accounts as usize)
        || (index >= h.num_required_signatures as usize
            && index
                < saturating_sub(message.account_keys.len(), h.num_readonly_unsigned_accounts as usize));
    by_header
        && !(called_as_program(&message.instructions, index)
            && !loader_present(&message.account_keys))
}

fn loaded_rule(message: &V0Message, loaded: &LoadedAddresses, index: usize) -> bool {
    let h = &message.header;
    let num_static = message.account_keys.len();
    let num_signed = h.num_required_signatures as usize;
    let mut keys = message.account_keys.clone();
    keys.extend(loaded.writable.iter().copied());
    keys.extend(loaded.readonly.iter().copied());
    let by_header = if index >= num_static {
        index - num_static < loaded.writable.len()
    } else if index >= num_signed {
        index - num_signed
            < saturating_sub(
                saturating_sub(num_static, num_signed),
                h.num_readonly_unsigned_accounts as usize,
            )
    } else {
        index < saturating_sub(num_signed, h.num_readonly_signed_accounts as usize)
    };
    index < keys.len()
        && by_header
        && !(called_as_program(&message.instructions, index) && !loader_present(&keys))
}

/// A small deterministic generator.
struct Lcg(u64);

impl Lcg {
    fn next(&mut self, bound: u64) -> u64 {
        self.0 = self.0.wrapping_mul(6364136223846793005).wrapping_add(1442695040888963407);
        (self.0 >> 33) % bound
    }
}

fn keys(rng: &mut Lcg, count: usize, tag: u8) -> Vec<Pubkey> {
    (0..count)
        .map(|i| {
            if rng.next(12) == 0 {
                Pubkey::new_from_array(LOADER_BYTES)
            } else {
                key(tag + i as u8)
            }
        })
        .collect()
}

fn instructions(rng: &mut Lcg) -> Vec<CompiledInstruction> {
    let count = rng.next(4) as usize;
    (0..count)
        .map(|_| CompiledInstruction {
            program_id_index: rng.next(12) as u8,
            accounts: vec![rng.next(12) as u8],
            data: vec![rng.next(256) as u8],
        })
        .collect()
}

fn header(rng: &mut Lcg) -> MessageHeader {
    MessageHeader {
        num_required_signatures: rng.next(7) as u8,
        num_readonly_signed_accounts: rng.next(5) as u8,
        num_readonly_unsigned_accounts: rng.next(7) as u8,
    }
}

#[test]
fn legacy_write_access_follows_the_stated_rule() {
    let mut rng = Lcg(1);
    for _ in 0..400 {
        let count = rng.next(8) as usize;
        let message = LegacyMessage {
            header: header(&mut rng),
            account_keys: keys(&mut rng, count, 1),
            instructions: instructions(&mut rng),
        };
        let versioned = VersionedMessage::Legacy(message.clone());
        for index in 0..14 {
            let account = resolve(&versioned, &LoadedAddresses::new(), index);
            assert_eq!(account.is_writable, legacy_rule(&message, index), "{message:?} at {index}");
            assert_eq!(
                account.is_signer,
                index < message.header.num_required_signatures as usize && index < count
            );
            let want = if index < count { message.account_keys[index] } else { Pubkey::default() };
            assert_eq!(account.pubkey, want);
        }
    }
}

#[test]
fn v0_write_access_follows_the_stated_rule() {
    let mut rng = Lcg(2);
    for _ in 0..400 {
        let count = rng.next(6) as usize;
        let message = V0Message {
            header: header(&mut rng),
            account_keys: keys(&mut rng, count, 1),
            instructions: instructions(&mut rng),
        };
        let writable = rng.next(4) as usize;
        let readonly = rng.next(4) as usize;
        let loaded = LoadedAddresses {
            writable: keys(&mut rng, writable, 100),
            readonly: keys(&mut rng, readonly, 200),
        };
        let versioned = VersionedMessage::V0(message.clone());
        for index in 0..16 {
            let account = resolve(&versioned, &loaded, index);
            assert_eq!(
                account.is_writable,
                loaded_rule(&message, &loaded, index),
                "{message:?} with {loaded:?} at {index}"
            );
            assert_eq!(
                account.is_signer,
                index < message.header.num_required_signatures as usize && index < count
            );
        }
    }
}

#[test]
fn account_metas_are_never_writable() {
    let mut rng = Lcg(3);
    for round in 0..200 {
        let count = 1 + rng.next(8) as usize;
        let head = header(&mut rng);
        let static_keys = keys(&mut rng, count, 1);
        let body = instructions(&mut rng);
        let versioned = if round % 2 == 0 {
            VersionedMessage::Legacy(LegacyMessage {
                header: head,
                account_keys: static_keys.clone(),
                instructions: body,
            })
        } else {
            VersionedMessage::V0(V0Message {
                header: head,
                account_keys: static_keys.clone(),
                instructions: body,
            })
        };
        let every = CompiledInstruction {
            program_id_index: 0,
            accounts: (0..count as u8).collect(),
            data: vec![],
        };
        let accounts = extract_account_metas(&every, &versioned).unwrap();
        assert_eq!(accounts.len(), count);
        for (index, account) in accounts.iter().enumerate() {
            assert_eq!(account.pubkey, static_keys[index]);
            assert_eq!(account.is_signer, index < head.num_required_signatures as usize);
            assert!(!account.is_writable);
        }
    }
}
