use volatility_estimator::data_sources::dex::swap_log::{
    has_elementary_params, is_elementary_kind, parse_swap_log, swap_from_values, EventParamAbi, LogValue,
    SwapEventAbi, SwapLogError,
};
use web3::ethabi::{long_signature, ParamType};

fn param(name: &str, kind: &str, indexed: bool) -> EventParamAbi {
    EventParamAbi { name: name.to_string(), kind: kind.to_string(), indexed }
}

fn swap_event() -> SwapEventAbi {
    SwapEventAbi {
        name: "Swap".to_string(),
        params: vec![
            param("sender", "address", true),
            param("recipient", "address", true),
            param("amount0", "int256", false),
            param("amount1", "int256", false),
            param("sqrtPriceX96", "uint160", false),
            param("liquidity", "uint128", false),
            param("tick", "int24", false),
        ],
        anonymous: false,
    }
}

fn signature() -> [u8; 32] {
    long_signature(
        "Swap",
        &[
            ParamType::Address,
            ParamType::Address,
            ParamType::Int(256),
            ParamType::Int(256),
            ParamType::Uint(160),
            ParamType::Uint(128),
            ParamType::Int(24),
        ],
    )
    .0
}

fn address_topic(fill: u8) -> [u8; 32] {
    let mut w = [0u8; 32];
    for b in w.iter_mut().skip(12) {
        *b = fill;
    }
    w
}

fn word(last: u8, negative: bool) -> [u8; 32] {
    let mut w = if negative { [0xffu8; 32] } else { [0u8; 32] };
    w[31] = last;
    w
}

fn swap_data() -> Vec<u8> {
    let words = [word(5, false), word(0xfb, true), word(7, false), word(9, false), word(0xc4, true)];
    words.iter().flat_map(|w| w.iter().copied()).collect()
}

#[test]
fn a_swap_log_decodes_into_its_fields() {
    let topics = vec![signature(), address_topic(0x11), address_topic(0x22)];
    let swap = parse_swap_log(swap_event(), &topics, swap_data()).unwrap();
    assert_eq!(swap.sender, [0x11u8; 20]);
    assert_eq!(swap.recipient, [0x22u8; 20]);
    assert_eq!(swap.amount0, word(5, false));
    assert_eq!(swap.amount1, word(0xfb, true));
    assert_eq!(swap.sqrt_price_x96, word(7, false));
    assert_eq!(swap.liquidity, word(9, false));
    assert_eq!(swap.tick, word(0xc4, true));
}

#[test]
fn a_log_of_another_event_is_invalid() {
    let mut other = signature();
    other[0] ^= 1;
    let topics = vec![other, address_topic(0x11), address_topic(0x22)];
    assert_eq!(parse_swap_log(swap_event(), &topics, swap_data()), Err(SwapLogError::InvalidLog));
    let short = vec![signature(), address_topic(0x11)];
    assert_eq!(parse_swap_log(swap_event(), &short, swap_data()), Err(SwapLogError::InvalidLog));
    let topics = vec![signature(), address_topic(0x11), address_topic(0x22)];
    assert_eq!(parse_swap_log(swap_event(), &topics, vec![0u8; 64]), Err(SwapLogError::InvalidLog));
}

#[test]
fn values_of_other_kinds_are_no_swap() {
    let event = SwapEventAbi {
        name: "Flip".to_string(),
        params: vec![param("a", "uint256", false), param("b", "bool", false)],
        anonymous: true,
    };
    let data: Vec<u8> = [word(1, false), word(1, false)].iter().flat_map(|w| w.iter().copied()).collect();
    assert_eq!(parse_swap_log(event, &vec![], data), Err(SwapLogError::UnexpectedValues));
    let values = vec![LogValue::Address([1u8; 20]); 7];
    assert_eq!(swap_from_values(&values), None);
}

#[test]
fn only_elementary_types_are_decoded() {
    for k in ["address", "bool", "int", "int24", "uint", "uint160", "int256"] {
        assert!(is_elementary_kind(&k.to_string()), "{}", k);
    }
    for k in ["bytes32", "string", "int8[]", "uint2x", "(int256,bool)", "tuple", "", "addresses"] {
        assert!(!is_elementary_kind(&k.to_string()), "{}", k);
    }
    assert!(has_elementary_params(&swap_event()));
    let mut e = swap_event();
    e.params.push(param("memo", "string", false));
    assert!(!has_elementary_params(&e));
}
