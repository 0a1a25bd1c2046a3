use carbon_core::error::CarbonError;
use carbon_core::message::{CompiledInstruction, LoadedAddresses};
use carbon_core::metadata::{
    InnerInstruction, InnerInstructions, OptionSerializer, Reward, RewardType,
    TransactionReturnData, TransactionStatusMeta, TransactionTokenBalance, UiCompiledInstruction,
    UiInnerInstructions, UiInstruction, UiLoadedAddresses, UiTransactionReturnData,
    UiTransactionStatusMeta, UiTransactionTokenBalance,
};
use carbon_core::normalize::{
    compiled_from_payload, decode_group, keep_balance, normalize_addresses, normalize_balances,
    normalize_group, normalize_instruction, normalize_return_data, payload_or_empty_of,
    placeholder, unsupported_instructions,
};
use carbon_core::pubkey::Pubkey;
use carbon_core::transformers::transaction_metadata_from_original_meta;
use solana_account_decoder_client_types::token::UiTokenAmount;
use solana_sdk::transaction::TransactionError;

const LOADER_TEXT: &str = "BPFLoaderUpgradeab1e11111111111111111111111";
const LOADER_BYTES: [u8; 32] = [
    2, 168, 246, 145, 78, 136, 161, 176, 226, 16, 21, 62, 247, 99, 174, 43, 0, 194, 185, 61, 22,
    193, 36, 210, 192, 83, 122, 16, 4, 128, 0, 0,
];

fn amount(text: &str) -> UiTokenAmount {
    UiTokenAmount {
        ui_amount: Some(1.5),
        decimals: 6,
        amount: text.to_string(),
        ui_amount_string: "1.5".to_string(),
    }
}

fn ui_balance(
    index: u8,
    owner: OptionSerializer<String>,
    program: OptionSerializer<String>,
) -> UiTransactionTokenBalance {
    UiTransactionTokenBalance {
        account_index: index,
        mint: "mint".to_string(),
        ui_token_amount: amount("1500000"),
        owner,
        program_id: program,
    }
}

fn present(text: &str) -> OptionSerializer<String> {
    OptionSerializer::Present(text.to_string())
}

fn ui_compiled(program: u8, accounts: Vec<u8>, data: &str, height: Option<u32>) -> UiCompiledInstruction {
    UiCompiledInstruction {
        program_id_index: program,
        accounts,
        data: data.to_string(),
        stack_height: height,
    }
}

fn absent_meta() -> UiTransactionStatusMeta {
    UiTransactionStatusMeta {
        status: Err(TransactionError::AccountNotFound),
        fee: 5000,
        pre_balances: vec![10, 20],
        post_balances: vec![5, 25],
        inner_instructions: OptionSerializer::Skip,
        log_messages: OptionSerializer::Null,
        pre_token_balances: OptionSerializer::Skip,
        post_token_balances: OptionSerializer::Null,
        rewards: OptionSerializer::Skip,
        loaded_addresses: OptionSerializer::Skip,
        return_data: OptionSerializer::Null,
        compute_units_consumed: OptionSerializer::Skip,
    }
}

#[test]
fn normalize_record_with_every_optional_field_absent() {
    let meta = transaction_metadata_from_original_meta(absent_meta()).unwrap();
    assert_eq!(
        meta,
        TransactionStatusMeta {
            status: Err(TransactionError::AccountNotFound),
            fee: 5000,
            pre_balances: vec![10, 20],
            post_balances: vec![5, 25],
            inner_instructions: Some(vec![]),
            log_messages: Some(vec![]),
            pre_token_balances: Some(vec![]),
            post_token_balances: Some(vec![]),
            rewards: Some(vec![]),
            loaded_addresses: LoadedAddresses { writable: vec![], readonly: vec![] },
            return_data: None,
            compute_units_consumed: None,
        }
    );
}

#[test]
fn normalize_record_with_every_field_present() {
    let reward = Reward {
        pubkey: "someone".to_string(),
        lamports: -7,
        post_balance: 93,
        reward_type: Some(RewardType::Staking),
        commission: Some(4),
    };
    let ui = UiTransactionStatusMeta {
        status: Ok(()),
        fee: 1,
        pre_balances: vec![1],
        post_balances: vec![2],
        inner_instructions: OptionSerializer::Present(vec![UiInnerInstructions {
            index: 3,
            instructions: vec![
                UiInstruction::Compiled(ui_compiled(1, vec![2, 3], "he11owor1d", Some(2))),
                UiInstruction::Parsed,
                UiInstruction::Compiled(ui_compiled(4, vec![5], "0OIl", None)),
            ],
        }]),
        log_messages: OptionSerializer::Present(vec!["one".to_string(), "two".to_string()]),
        pre_token_balances: OptionSerializer::Present(vec![
            ui_balance(0, present("owner"), present("program")),
            ui_balance(1, OptionSerializer::Skip, present("program")),
        ]),
        post_token_balances: OptionSerializer::Present(vec![
            ui_balance(2, present("owner"), OptionSerializer::Null),
            ui_balance(3, present("other"), present("token")),
        ]),
        rewards: OptionSerializer::Present(vec![reward.clone()]),
        loaded_addresses: OptionSerializer::Present(UiLoadedAddresses {
            writable: vec![LOADER_TEXT.to_string()],
            readonly: vec!["?".to_string(), LOADER_TEXT.to_string()],
        }),
        return_data: OptionSerializer::Present(UiTransactionReturnData {
            program_id: LOADER_TEXT.to_string(),
            data: "AQID".to_string(),
        }),
        compute_units_consumed: OptionSerializer::Present(777),
    };
    let loader = Pubkey::new_from_array(LOADER_BYTES);
    let meta = transaction_metadata_from_original_meta(ui).unwrap();
    assert_eq!(
        meta,
        TransactionStatusMeta {
            status: Ok(()),
            fee: 1,
            pre_balances: vec![1],
            post_balances: vec![2],
            inner_instructions: Some(vec![InnerInstructions {
                index: 3,
                instructions: vec![
                    InnerInstruction {
                        instruction: CompiledInstruction {
                            program_id_index: 1,
                            accounts: vec![2, 3],
                            data: vec![0x04, 0x30, 0x5e, 0x2b, 0x24, 0x73, 0xf0, 0x58],
                        },
                        stack_height: Some(2),
                    },
                    InnerInstruction {
                        instruction: CompiledInstruction {
                            program_id_index: 0,
                            accounts: vec![],
                            data: vec![],
                        },
                        stack_height: None,
                    },
                    InnerInstruction {
                        instruction: CompiledInstruction {
                            program_id_index: 4,
                            accounts: vec![5],
                            data: vec![],
                        },
                        stack_height: None,
                    },
                ],
            }]),
            log_messages: Some(vec!["one".to_string(), "two".to_string()]),
            pre_token_balances: Some(vec![TransactionTokenBalance {
                account_index: 0,
                mint: "mint".to_string(),
                ui_token_amount: amount("1500000"),
                owner: "owner".to_string(),
                program_id: "program".to_string(),
            }]),
            post_token_balances: Some(vec![TransactionTokenBalance {
                account_index: 3,
                mint: "mint".to_string(),
                ui_token_amount: amount("1500000"),
                owner: "other".to_string(),
                program_id: "token".to_string(),
            }]),
            rewards: Some(vec![reward]),
            loaded_addresses: LoadedAddresses {
                writable: vec![loader],
                readonly: vec![Pubkey::default(), loader],
            },
            return_data: Some(TransactionReturnData {
                program_id: loader,
                data: vec![b'A', b'Q', b'I', b'D'],
            }),
            compute_units_consumed: Some(777),
        }
    );
}

#[test]
fn normalize_drops_a_token_balance_without_owner() {
    let balances = vec![
        ui_balance(0, OptionSerializer::Skip, present("program")),
        ui_balance(1, OptionSerializer::Null, present("program")),
        ui_balance(2, present("owner"), OptionSerializer::Skip),
        ui_balance(3, present("owner"), present("program")),
        ui_balance(4, OptionSerializer::Skip, OptionSerializer::Skip),
    ];
    let kept = normalize_balances(&balances);
    assert_eq!(kept.len(), 1);
    assert_eq!(kept[0].account_index, 3);
    assert_eq!(kept[0].owner, "owner");
    assert_eq!(kept[0].program_id, "program");
}

#[test]
fn keep_balance_needs_owner_and_program() {
    assert_eq!(keep_balance(&ui_balance(0, OptionSerializer::Skip, present("p"))), None);
    assert_eq!(keep_balance(&ui_balance(0, present("o"), OptionSerializer::Null)), None);
    assert_eq!(
        keep_balance(&ui_balance(9, present("o"), present("p"))),
        Some(TransactionTokenBalance {
            account_index: 9,
            mint: "mint".to_string(),
            ui_token_amount: amount("1500000"),
            owner: "o".to_string(),
            program_id: "p".to_string(),
        })
    );
}

#[test]
fn normalize_instruction_decodes_degrades_and_replaces() {
    let good = UiInstruction::Compiled(ui_compiled(7, vec![1], "2", Some(3)));
    assert_eq!(
        normalize_instruction(&good),
        InnerInstruction {
            instruction: CompiledInstruction { program_id_index: 7, accounts: vec![1], data: vec![1] },
            stack_height: Some(3),
        }
    );
    let bad = UiInstruction::Compiled(ui_compiled(7, vec![1], "not base58!", Some(3)));
    assert_eq!(
        normalize_instruction(&bad),
        InnerInstruction {
            instruction: CompiledInstruction { program_id_index: 7, accounts: vec![1], data: vec![] },
            stack_height: Some(3),
        }
    );
    assert_eq!(normalize_instruction(&UiInstruction::Parsed), placeholder());
    assert_eq!(
        placeholder(),
        InnerInstruction {
            instruction: CompiledInstruction { program_id_index: 0, accounts: vec![], data: vec![] },
            stack_height: None,
        }
    );
}

#[test]
fn normalize_group_keeps_length_and_order() {
    let group = UiInnerInstructions {
        index: 9,
        instructions: vec![
            UiInstruction::Parsed,
            UiInstruction::Compiled(ui_compiled(1, vec![], "2", None)),
            UiInstruction::Parsed,
        ],
    };
    let normalized = normalize_group(&group);
    assert_eq!(normalized.index, 9);
    assert_eq!(normalized.instructions.len(), 3);
    assert_eq!(normalized.instructions[0], placeholder());
    assert_eq!(normalized.instructions[1].instruction.data, vec![1]);
    assert_eq!(normalized.instructions[2], placeholder());
}

#[test]
fn decode_group_leaves_out_what_is_not_compiled_and_fails_on_bad_payloads() {
    let group = UiInnerInstructions {
        index: 9,
        instructions: vec![
            UiInstruction::Parsed,
            UiInstruction::Compiled(ui_compiled(1, vec![4], "3", Some(2))),
        ],
    };
    assert_eq!(
        decode_group(&group),
        Ok(InnerInstructions {
            index: 9,
            instructions: vec![InnerInstruction {
                instruction: CompiledInstruction { program_id_index: 1, accounts: vec![4], data: vec![2] },
                stack_height: Some(2),
            }],
        })
    );
    let bad = UiInnerInstructions {
        index: 9,
        instructions: vec![UiInstruction::Compiled(ui_compiled(1, vec![4], "l0", Some(2)))],
    };
    assert_eq!(decode_group(&bad), Err(CarbonError::InvalidInstructionData));
}

#[test]
fn compiled_from_payload_takes_the_payload_as_given() {
    let ui = ui_compiled(3, vec![1, 2], "ignored", Some(4));
    assert_eq!(
        compiled_from_payload(&ui, vec![8, 9]),
        InnerInstruction {
            instruction: CompiledInstruction { program_id_index: 3, accounts: vec![1, 2], data: vec![8, 9] },
            stack_height: Some(4),
        }
    );
}

#[test]
fn payload_or_empty_of_a_failure_is_empty() {
    assert_eq!(payload_or_empty_of(Ok(vec![1, 2])), vec![1, 2]);
    assert_eq!(payload_or_empty_of(Err(CarbonError::InvalidInstructionData)), Vec::<u8>::new());
}

#[test]
fn normalize_addresses_degrades_each_bad_text_alone() {
    let texts = vec![
        "bad".to_string(),
        LOADER_TEXT.to_string(),
        "".to_string(),
        "11111111111111111111111111111111".to_string(),
    ];
    assert_eq!(
        normalize_addresses(&texts),
        vec![
            Pubkey::default(),
            Pubkey::new_from_array(LOADER_BYTES),
            Pubkey::default(),
            Pubkey::new_from_array([0u8; 32]),
        ]
    );
}

#[test]
fn normalize_return_data_takes_the_bytes_of_the_text() {
    let ui = UiTransactionReturnData { program_id: "nobody".to_string(), data: "h\u{e9}".to_string() };
    assert_eq!(
        normalize_return_data(&ui),
        TransactionReturnData { program_id: Pubkey::default(), data: vec![0x68, 0xc3, 0xa9] }
    );
}

#[test]
fn option_serializer_into_option() {
    assert_eq!(OptionSerializer::Present(5u64).into_option(), Some(5));
    assert_eq!(OptionSerializer::<u64>::Null.into_option(), None);
    assert_eq!(OptionSerializer::<u64>::Skip.into_option(), None);
    assert_eq!(OptionSerializer::Present(5u64).as_option(), Some(&5));
    assert_eq!(OptionSerializer::<u64>::Skip.as_option(), None);
}

#[test]
fn unsupported_instructions_lists_what_is_not_compiled() {
    let groups = vec![
        UiInnerInstructions {
            index: 4,
            instructions: vec![
                UiInstruction::Parsed,
                UiInstruction::Compiled(ui_compiled(1, vec![], "2", None)),
                UiInstruction::Parsed,
            ],
        },
        UiInnerInstructions { index: 2, instructions: vec![] },
        UiInnerInstructions {
            index: 0,
            instructions: vec![
                UiInstruction::Compiled(ui_compiled(1, vec![], "not base58", None)),
                UiInstruction::Parsed,
            ],
        },
    ];
    assert_eq!(unsupported_instructions(&groups), vec![(4, 0), (4, 2), (0, 1)]);
    assert_eq!(unsupported_instructions(&vec![]), vec![]);
}
