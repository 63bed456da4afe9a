use displaymux::host_order::{
    host_order_from_route_ids, is_valid_shared_host_order, ordered_route_ids, MAX_HOST_ID_LEN,
    MAX_SHARED_HOSTS,
};

const MAC_ID: &str = "aabbccddeeff-mac";
const PC_ID: &str = "2cf05de0c029-windows";
const NAS_ID: &str = "112233445566-windows";

fn owned(values: &[&str]) -> Vec<String> {
    values.iter().map(|value| (*value).to_owned()).collect()
}

#[test]
fn routes_follow_the_saved_host_order_with_this_computer_mapped_to_local() {
    let order = owned(&[PC_ID, MAC_ID]);

    assert_eq!(
        ordered_route_ids(&order, MAC_ID, &[PC_ID]),
        owned(&[PC_ID, "local"])
    );
}

#[test]
fn the_same_saved_order_reads_correctly_on_the_other_host() {
    let order = owned(&[PC_ID, MAC_ID]);

    assert_eq!(
        ordered_route_ids(&order, PC_ID, &[MAC_ID]),
        owned(&["local", MAC_ID])
    );
}

#[test]
fn hosts_missing_from_the_order_keep_their_default_position_at_the_end() {
    let order = owned(&[NAS_ID]);

    assert_eq!(
        ordered_route_ids(&order, MAC_ID, &[PC_ID, NAS_ID]),
        owned(&[NAS_ID, "local", PC_ID])
    );
    assert_eq!(
        ordered_route_ids(&[], MAC_ID, &[PC_ID]),
        owned(&["local", PC_ID])
    );
}

#[test]
fn route_order_becomes_a_shareable_host_order() {
    let order = host_order_from_route_ids(&owned(&[PC_ID, "local"]), MAC_ID, &[PC_ID], &[]);

    assert_eq!(order, Some(owned(&[PC_ID, MAC_ID])));
}

#[test]
fn hosts_only_another_computer_knows_stay_after_the_reordered_ones() {
    let previous = owned(&[NAS_ID, MAC_ID, PC_ID]);

    let order =
        host_order_from_route_ids(&owned(&[PC_ID, "local"]), MAC_ID, &[PC_ID], &previous);

    assert_eq!(order, Some(owned(&[PC_ID, MAC_ID, NAS_ID])));
}

#[test]
fn route_order_must_list_every_known_host_exactly_once() {
    let peers = [PC_ID];

    assert_eq!(
        host_order_from_route_ids(&owned(&["local"]), MAC_ID, &peers, &[]),
        None
    );
    assert_eq!(
        host_order_from_route_ids(&owned(&["local", "local"]), MAC_ID, &peers, &[]),
        None
    );
    assert_eq!(
        host_order_from_route_ids(&owned(&["local", NAS_ID]), MAC_ID, &peers, &[]),
        None
    );
    assert_eq!(
        host_order_from_route_ids(&owned(&["local", PC_ID, PC_ID]), MAC_ID, &peers, &[]),
        None
    );
}

#[test]
fn shared_host_order_rejects_malformed_input_from_the_network() {
    assert!(is_valid_shared_host_order(&owned(&[PC_ID, MAC_ID])));
    assert!(is_valid_shared_host_order(&[]));
    assert!(!is_valid_shared_host_order(&owned(&[PC_ID, PC_ID])));
    assert!(!is_valid_shared_host_order(&owned(&[""])));
    assert!(!is_valid_shared_host_order(&owned(&["<script>"])));
    assert!(!is_valid_shared_host_order(&[
        "a".repeat(MAX_HOST_ID_LEN + 1)
    ]));
    let too_many: Vec<String> = (0..=MAX_SHARED_HOSTS)
        .map(|index| format!("host-{index}"))
        .collect();
    assert!(!is_valid_shared_host_order(&too_many));
}
