use alkane_lottery::error::ContractError;
use alkane_lottery::id::{refund_and_check_inputs, AlkaneId, AlkaneTransfer};
use alkane_lottery::lending;
use alkane_lottery::lottery::LotteryContractMessage;
use alkane_lottery::ticket::{LotteryTicket, LotteryTicketMessage};
use alkane_lottery::wide::{mul_div, wide_mul};

fn id(block: u128, tx: u128) -> AlkaneId {
    AlkaneId { block, tx }
}

#[test]
fn wide_mul_splits_product() {
    assert_eq!(wide_mul(u128::MAX, u128::MAX), (u128::MAX - 1, 1));
    assert_eq!(wide_mul(1u128 << 64, 1u128 << 64), (1, 0));
    assert_eq!(wide_mul(6, 7), (0, 42));
}

#[test]
fn mul_div_is_exact_over_256_bits() {
    assert_eq!(mul_div(u128::MAX, u128::MAX, u128::MAX), Some(u128::MAX));
    assert_eq!(mul_div(u128::MAX, 3, 4), Some(u128::MAX / 4 * 3 + 2));
    assert_eq!(mul_div(u128::MAX, 2, 1), None);
    assert_eq!(mul_div(2000, 1000, 1000), Some(2000));
    assert_eq!(mul_div(7, 3, 2), Some(10));
    assert_eq!(mul_div(0, u128::MAX, 5), Some(0));
}

#[test]
fn refund_keeps_the_desired_amount() {
    let t = id(4, 2);
    let o = id(9, 9);
    let incoming = vec![
        AlkaneTransfer { id: t, value: 10 },
        AlkaneTransfer { id: o, value: 1 },
        AlkaneTransfer { id: t, value: 5 },
    ];
    let r = refund_and_check_inputs(&incoming, t, 12).unwrap();
    assert_eq!(r.alkanes, vec![AlkaneTransfer { id: o, value: 1 }, AlkaneTransfer { id: t, value: 3 }]);
    assert_eq!(
        refund_and_check_inputs(&incoming, t, 16).err(),
        Some(ContractError::InsufficientInput { desired: 16, received: 15 })
    );
}

#[test]
fn lending_records_collateral_and_keeps_loan() {
    let mut c = lending::LotteryContract::new();
    assert_eq!(c.collateral_token(), Err(ContractError::StorageDecode));
    let collateral = id(2, 0x1234);
    let loan = id(4, 2);
    let incoming = vec![AlkaneTransfer { id: loan, value: 100 }];
    assert_eq!(
        c.init_with_loan_amount(collateral, 5, loan, 101, 900, 500, &incoming).err(),
        Some(ContractError::InsufficientInput { desired: 101, received: 100 })
    );
    assert_eq!(c.collateral_token(), Err(ContractError::StorageDecode));
    let r = c.init_with_loan_amount(collateral, 5, loan, 60, 900, 500, &incoming).unwrap();
    assert_eq!(r.alkanes, vec![AlkaneTransfer { id: loan, value: 40 }]);
    assert_eq!(c.collateral_token(), Ok(collateral));
    let mut expected = 2u128.to_le_bytes().to_vec();
    expected.extend_from_slice(&0x1234u128.to_le_bytes());
    assert_eq!(c.collateral_token_bytes, expected);
    assert_eq!(c.collateral_token_pointer(), "/collateral_token");
}

#[test]
fn lending_init_with_collateral_amount() {
    let mut c = lending::LotteryContract::new();
    let collateral = id(2, 3);
    let incoming = vec![AlkaneTransfer { id: collateral, value: 50 }, AlkaneTransfer { id: id(7, 7), value: 2 }];
    let r = c.init_with_collateral_amount(collateral, 50, id(4, 2), 1, 900, 500, &incoming).unwrap();
    assert_eq!(
        r.alkanes,
        vec![AlkaneTransfer { id: id(7, 7), value: 2 }, AlkaneTransfer { id: collateral, value: 0 }]
    );
    assert_eq!(c.collateral_token(), Ok(collateral));
    c.collateral_token_bytes.truncate(20);
    assert_eq!(c.collateral_token(), Err(ContractError::StorageDecode));
    assert_eq!(c.get_symbol(&vec![], &b"X".to_vec()).data, b"X".to_vec());
}

#[test]
fn lending_messages_decode() {
    let m = lending::LotteryContractMessage::from_inputs(&vec![1, 2, 3, 10, 4, 5, 20, 30, 40, 99]).unwrap();
    assert_eq!(
        m,
        lending::LotteryContractMessage::InitWithCollateralAmount {
            collateral_token: id(2, 3),
            collateral_amount: 10,
            loan_token: id(4, 5),
            loan_amount: 20,
            repayment_block_deadline: 30,
            desired_apr: 40,
        }
    );
    assert_eq!(m.opcode(), 1);
    assert_eq!(
        lending::LotteryContractMessage::from_inputs(&vec![0, 2, 3]),
        Err(ContractError::UnknownMessage)
    );
    assert_eq!(lending::LotteryContractMessage::from_inputs(&vec![50]), Ok(lending::LotteryContractMessage::ForwardIncoming));
}

#[test]
fn lottery_messages_decode() {
    assert_eq!(
        LotteryContractMessage::from_inputs(&vec![0, 4, 2, 100, 4, 3, 1]),
        Ok(LotteryContractMessage::Initialize {
            token_id: id(4, 2),
            ticket_price: 100,
            collector_factory_id: id(4, 3),
            enable_purchasing: 1,
        })
    );
    assert_eq!(
        LotteryContractMessage::from_inputs(&vec![3, 2, 9]),
        Ok(LotteryContractMessage::PurchaseTickets { collector_id: id(2, 9) })
    );
    assert_eq!(LotteryContractMessage::from_inputs(&vec![4]), Ok(LotteryContractMessage::RunJackpot));
    assert_eq!(LotteryContractMessage::from_inputs(&vec![32, 1]), Ok(LotteryContractMessage::AdminSetAllowPurchasing { allow: 1 }));
    assert_eq!(LotteryContractMessage::from_inputs(&vec![101]), Ok(LotteryContractMessage::GetUserPoolTotal));
    assert_eq!(LotteryContractMessage::from_inputs(&vec![6]), Err(ContractError::UnknownMessage));
    assert_eq!(LotteryContractMessage::from_inputs(&vec![8]), Err(ContractError::UnknownMessage));
    assert_eq!(LotteryContractMessage::from_inputs(&vec![]), Err(ContractError::UnknownMessage));
    assert_eq!(LotteryContractMessage::AdminSetFeeBps { bps: 1 }.opcode(), 23);
}

#[test]
fn ticket_collector_is_named_and_minted() {
    let mut t = LotteryTicket::new();
    let me = id(2, 5);
    let incoming = vec![AlkaneTransfer { id: id(9, 9), value: 3 }];
    let r = t.initialize(42, me, &incoming).unwrap();
    assert_eq!(t.name, b"Lottery Ticket Collector42".to_vec());
    assert_eq!(t.symbol, b"LTC42".to_vec());
    assert_eq!(t.total_supply, 1);
    assert_eq!(r.alkanes, vec![AlkaneTransfer { id: id(9, 9), value: 3 }, AlkaneTransfer { id: me, value: 1 }]);
    assert_eq!(t.get_name(&vec![]).data, b"Lottery Ticket Collector42".to_vec());
    assert_eq!(t.get_symbol(&vec![]).data, b"LTC42".to_vec());
    let mut z = LotteryTicket::new();
    z.initialize(0, me, &vec![]).unwrap();
    assert_eq!(z.symbol, b"LTC0".to_vec());
    let mut big = LotteryTicket::new();
    big.initialize(u128::MAX, me, &vec![]).unwrap();
    assert_eq!(big.symbol, format!("LTC{}", u128::MAX).into_bytes());
    big.total_supply = u128::MAX;
    assert_eq!(big.initialize(1, me, &vec![]).err(), Some(ContractError::SupplyOverflow));
}

#[test]
fn ticket_messages_decode() {
    assert_eq!(LotteryTicketMessage::from_inputs(&vec![0, 7]), Ok(LotteryTicketMessage::Initialize { ticket_id: 7 }));
    assert_eq!(LotteryTicketMessage::from_inputs(&vec![0]), Err(ContractError::UnknownMessage));
    assert_eq!(LotteryTicketMessage::from_inputs(&vec![100, 1]), Ok(LotteryTicketMessage::GetSymbol));
    assert_eq!(LotteryTicketMessage::GetName.opcode(), 99);
}
