use std::collections::HashMap;

use anvil_udev::connectors::{ConnectorInfo, EncoderInfo, SurfacePlan};
use anvil_udev::handler::UdevHandlerImpl;
use drm::control::connector::State;

fn connector(handle: u32, state: State, modes: &[u8], encoders: &[Option<u32>]) -> ConnectorInfo<u8> {
    ConnectorInfo { handle, state, modes: modes.to_vec(), encoders: encoders.to_vec() }
}

type Table = HashMap<u32, Vec<u32>>;

/// What could be read of the encoders, by their handles.
fn encoders(table: &[(u32, &[u32])]) -> Table {
    table.iter().map(|(handle, crtcs)| (*handle, crtcs.to_vec())).collect()
}

/// The handles that a scan reads, connector by connector.
fn handles(connectors: &Vec<ConnectorInfo<u8>>) -> Vec<Vec<u32>> {
    (0..).map_while(|read| UdevHandlerImpl::encoders_to_read(connectors, read)).collect()
}

/// A whole scan.
fn scan(connectors: &Vec<ConnectorInfo<u8>>, table: &Table) -> Vec<SurfacePlan<u8>> {
    let read = |handle: &u32| {
        table.get(handle).map(|crtcs| EncoderInfo { possible_crtcs: crtcs.clone() })
    };
    let encoders: Vec<Vec<Option<EncoderInfo>>> =
        handles(connectors).iter().map(|list| list.iter().map(read).collect()).collect();
    UdevHandlerImpl::scan_connectors(connectors, &encoders)
}

fn surface(crtc: u32, connector: u32, mode: Option<u8>) -> SurfacePlan<u8> {
    SurfacePlan { crtc, connector, mode }
}

#[test]
fn only_connected_connectors_are_scanned() {
    let connectors = vec![
        connector(1, State::Disconnected, &[9], &[Some(11)]),
        connector(2, State::Connected, &[8], &[Some(12)]),
        connector(3, State::Unknown, &[7], &[Some(13)]),
    ];
    let table = encoders(&[(11, &[100]), (12, &[100, 101]), (13, &[101])]);
    assert_eq!(handles(&connectors), vec![vec![12]]);
    assert_eq!(
        scan(&connectors, &table),
        vec![surface(100, 2, Some(8))]
    );
}

#[test]
fn every_connected_connector_gets_a_surface() {
    let connectors = vec![
        connector(1, State::Connected, &[9], &[Some(11)]),
        connector(2, State::Connected, &[8], &[Some(12)]),
    ];
    let table = encoders(&[(11, &[100]), (12, &[101])]);
    assert_eq!(
        scan(&connectors, &table),
        vec![surface(100, 1, Some(9)), surface(101, 2, Some(8))]
    );
}

#[test]
fn a_crtc_is_used_once() {
    let connectors = vec![
        connector(1, State::Connected, &[9], &[Some(11)]),
        connector(2, State::Connected, &[8], &[Some(12)]),
        connector(3, State::Connected, &[7], &[Some(13)]),
    ];
    let table = encoders(&[(11, &[100, 101]), (12, &[100, 101]), (13, &[101, 100])]);
    assert_eq!(
        scan(&connectors, &table),
        vec![surface(100, 1, Some(9)), surface(101, 2, Some(8))]
    );
}

#[test]
fn a_connector_that_comes_first_is_not_moved() {
    // The other way round both connectors could be driven.
    let connectors = vec![
        connector(1, State::Connected, &[9], &[Some(11)]),
        connector(2, State::Connected, &[8], &[Some(12)]),
    ];
    let table = encoders(&[(11, &[100, 101]), (12, &[100])]);
    assert_eq!(
        scan(&connectors, &table),
        vec![surface(100, 1, Some(9))]
    );
}

#[test]
fn each_encoder_of_a_connector_gets_a_surface() {
    let connectors = vec![connector(1, State::Connected, &[9, 5], &[Some(11), None, Some(12)])];
    let table = encoders(&[(11, &[100]), (12, &[100, 102])]);
    assert_eq!(handles(&connectors), vec![vec![11, 12]]);
    assert_eq!(
        scan(&connectors, &table),
        vec![surface(100, 1, Some(9)), surface(102, 1, Some(9))]
    );
}

#[test]
fn an_encoder_that_cannot_be_read_is_skipped() {
    let connectors = vec![connector(1, State::Connected, &[9], &[Some(11), Some(12)])];
    let table = encoders(&[(12, &[100])]);
    assert_eq!(
        scan(&connectors, &table),
        vec![surface(100, 1, Some(9))]
    );
    assert!(scan(&connectors, &encoders(&[])).is_empty());
}

#[test]
fn an_encoder_without_crtcs_gets_no_surface() {
    let connectors = vec![connector(1, State::Connected, &[9], &[Some(11)])];
    assert!(scan(&connectors, &encoders(&[(11, &[])])).is_empty());
}

#[test]
fn a_connector_without_modes_plans_none() {
    let connectors = vec![connector(1, State::Connected, &[], &[Some(11)])];
    assert_eq!(
        scan(&connectors, &encoders(&[(11, &[100])])),
        vec![surface(100, 1, None)]
    );
}

#[test]
fn first_connectors_do_not_depend_on_later_ones() {
    let all = vec![
        connector(1, State::Connected, &[9], &[Some(11)]),
        connector(2, State::Connected, &[8], &[Some(12)]),
        connector(3, State::Connected, &[7], &[Some(13)]),
    ];
    let first = vec![
        connector(1, State::Connected, &[9], &[Some(11)]),
        connector(2, State::Connected, &[8], &[Some(12)]),
    ];
    let table = encoders(&[(11, &[102, 100]), (12, &[102, 101]), (13, &[102, 101, 103])]);
    let plan = scan(&all, &table);
    let prefix = scan(&first, &table);
    assert_eq!(prefix, vec![surface(102, 1, Some(9)), surface(101, 2, Some(8))]);
    assert_eq!(plan[..2], prefix[..]);
    assert_eq!(plan[2], surface(103, 3, Some(7)));
    assert_eq!(plan.len(), 3);
}

#[test]
fn other_encoders_make_no_difference() {
    let connectors = vec![connector(1, State::Connected, &[9], &[Some(11)])];
    let table = encoders(&[(11, &[100])]);
    let more = encoders(&[(11, &[100]), (12, &[100, 101])]);
    assert_eq!(
        scan(&connectors, &table),
        scan(&connectors, &more)
    );
}

#[test]
fn encoders_are_read_in_the_order_of_the_scan() {
    let connectors = vec![
        connector(1, State::Connected, &[9], &[None, Some(14), Some(11)]),
        connector(2, State::Disconnected, &[8], &[Some(12)]),
        connector(3, State::Connected, &[7], &[Some(11), None]),
    ];
    assert_eq!(connectors[0].encoder_handles(), vec![14, 11]);
    assert_eq!(connectors[1].encoder_handles(), vec![12]);
    assert_eq!(handles(&connectors), vec![vec![14, 11], vec![11]]);
    assert_eq!(UdevHandlerImpl::encoders_to_read(&connectors, 1), Some(vec![11]));
    assert_eq!(UdevHandlerImpl::encoders_to_read(&connectors, 2), None);
    assert_eq!(UdevHandlerImpl::encoders_to_read(&connectors, 7), None);
    assert!(handles(&vec![]).is_empty());
}

#[test]
fn what_is_not_connected_or_cannot_be_read_makes_no_difference() {
    let all = vec![
        connector(1, State::Disconnected, &[9], &[Some(11)]),
        connector(2, State::Connected, &[8], &[Some(13), Some(12)]),
        connector(3, State::Unknown, &[7], &[Some(11)]),
    ];
    let connected = vec![connector(2, State::Connected, &[8], &[Some(13), Some(12)])];
    let readable = vec![
        connector(1, State::Disconnected, &[9], &[Some(11)]),
        connector(2, State::Connected, &[8], &[None, Some(12)]),
        connector(3, State::Unknown, &[7], &[Some(11)]),
    ];
    let table = encoders(&[(11, &[100]), (12, &[100])]);
    let plan = scan(&all, &table);
    assert_eq!(plan, vec![surface(100, 2, Some(8))]);
    assert_eq!(scan(&connected, &table), plan);
    assert_eq!(scan(&readable, &table), plan);
}

#[test]
fn a_scan_plans_for_the_connectors_that_were_read() {
    let connectors = vec![
        connector(1, State::Disconnected, &[9], &[Some(11)]),
        connector(2, State::Connected, &[8], &[Some(12)]),
        connector(3, State::Connected, &[7], &[Some(13)]),
    ];
    let encoder = |crtcs: &[u32]| Some(EncoderInfo { possible_crtcs: crtcs.to_vec() });
    let mut read: Vec<Vec<Option<EncoderInfo>>> = vec![];
    assert!(UdevHandlerImpl::scan_connectors(&connectors, &read).is_empty());
    read.push(vec![encoder(&[100])]);
    assert_eq!(
        UdevHandlerImpl::scan_connectors(&connectors, &read),
        vec![surface(100, 2, Some(8))]
    );
    read.push(vec![None, encoder(&[100, 101])]);
    assert_eq!(
        UdevHandlerImpl::scan_connectors(&connectors, &read),
        vec![surface(100, 2, Some(8)), surface(101, 3, Some(7))]
    );
}

#[test]
fn an_encoder_that_is_listed_twice_is_read_twice() {
    let connectors = vec![
        connector(1, State::Connected, &[9], &[Some(11)]),
        connector(2, State::Connected, &[8], &[Some(11)]),
    ];
    assert_eq!(handles(&connectors), vec![vec![11], vec![11]]);
    let encoder = |crtcs: &[u32]| Some(EncoderInfo { possible_crtcs: crtcs.to_vec() });
    let read = vec![vec![encoder(&[100])], vec![encoder(&[102])]];
    assert_eq!(
        UdevHandlerImpl::scan_connectors(&connectors, &read),
        vec![surface(100, 1, Some(9)), surface(102, 2, Some(8))]
    );
}

#[test]
fn empty_slots_make_no_difference() {
    let with = vec![connector(1, State::Connected, &[9], &[None, Some(11), None, Some(12)])];
    let without = vec![connector(1, State::Connected, &[9], &[Some(11), Some(12)])];
    let table = encoders(&[(11, &[100]), (12, &[101])]);
    assert_eq!(handles(&with), handles(&without));
    assert_eq!(scan(&with, &table), scan(&without, &table));
}
