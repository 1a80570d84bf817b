use eve_metrade::imports::{
    aggregate_key, aggregates_from_gzip_csv, aggregates_from_records, discovery_errors, item_type,
    item_types_from_csv, ItemType,
};
use std::io::Write;

const FORGE: i64 = 10000002;
const DOMAIN: i64 = 10000043;

fn gzip(text: &str) -> Vec<u8> {
    let mut encoder = flate2::write::GzEncoder::new(Vec::new(), flate2::Compression::default());
    encoder.write_all(text.as_bytes()).unwrap();
    encoder.finish().unwrap()
}

fn record(fields: &[&str]) -> Vec<String> {
    fields.iter().map(|f| f.to_string()).collect()
}

#[test]
fn item_type_records() {
    assert_eq!(item_type(&record(&["34", " Tritanium "])), Some(ItemType { type_id: 34, name: "Tritanium".to_string() }));
    assert_eq!(item_type(&record(&["0", "Zero"])), None);
    assert_eq!(item_type(&record(&["-1", "Negative"])), None);
    assert_eq!(item_type(&record(&["abc", "Name"])), None);
    assert_eq!(item_type(&record(&["36", "#Hidden"])), None);
    assert_eq!(item_type(&record(&["37", "   "])), None);
    assert_eq!(item_type(&record(&["38"])), None);
}

#[test]
fn item_type_downloads() {
    let body = b"34,Tritanium\n35, Pyerite \n-1,Bad\n36,#Hidden\n37,\n";
    let types = item_types_from_csv(body).unwrap();
    assert_eq!(
        types,
        vec![
            ItemType { type_id: 34, name: "Tritanium".to_string() },
            ItemType { type_id: 35, name: "Pyerite".to_string() },
        ]
    );
    // a record with a different number of fields is an error of the reader
    assert!(item_types_from_csv(b"34,Tritanium\n35,Pyerite,extra\n").is_err());
}

#[test]
fn aggregate_keys() {
    assert_eq!(aggregate_key("10000002|34|false", FORGE, DOMAIN), Some((FORGE, 34)));
    assert_eq!(aggregate_key("10000043|35|false", FORGE, DOMAIN), Some((DOMAIN, 35)));
    assert_eq!(aggregate_key("10000002|34|true", FORGE, DOMAIN), None);
    assert_eq!(aggregate_key("10000002|34", FORGE, DOMAIN), Some((FORGE, 34)));
    assert_eq!(aggregate_key("10000002|34|TRUE", FORGE, DOMAIN), Some((FORGE, 34)));
    assert_eq!(aggregate_key("10000001|34|false", FORGE, DOMAIN), None);
    assert_eq!(aggregate_key("10000002|0|false", FORGE, DOMAIN), None);
    assert_eq!(aggregate_key("10000002|x|false", FORGE, DOMAIN), None);
    assert_eq!(aggregate_key("", FORGE, DOMAIN), None);
}

#[test]
fn aggregate_records() {
    let records = vec![
        record(&["10000002|34|false", "5.1", "6", "4", "0.1", "5", "1000000", "50", "4.5", "123"]),
        record(&["10000002|34|true", "5.1", "6", "4", "0.1", "5", "1000000", "50", "4.5", "123"]),
        record(&["10000043|34|false", "6.0", "7", "5", "0.2", "6", "900", "x", "5.5", "124"]),
    ];
    let rows = aggregates_from_records(&records, FORGE, DOMAIN);
    assert_eq!(rows.len(), 2);
    assert_eq!((rows[0].region_id, rows[0].type_id, rows[0].num_orders, rows[0].order_set), (FORGE, 34, 50, 123));
    assert_eq!((rows[1].region_id, rows[1].type_id, rows[1].num_orders, rows[1].order_set), (DOMAIN, 34, 0, 124));
    assert_eq!(rows[1].fields[6], "900");
    assert_eq!(rows[0].fields, records[0]);
    assert_eq!(rows[1].fields, records[2]);
}

#[test]
fn gzipped_aggregate_downloads() {
    let text = "what,weightedaverage,maxval,minval,stddev,median,volume,numorders,fivepercent,orderSet\n\
                10000002|34|false,5.1,6,4,0.1,5,1000000,50,4.5,123\n\
                10000001|34|false,5.1,6,4,0.1,5,1000000,50,4.5,123\n\
                10000043|35|false,6,7,5,0.2,6,900,8,5.5,124\n";
    let rows = aggregates_from_gzip_csv(&gzip(text), FORGE, DOMAIN).unwrap();
    assert_eq!(rows.len(), 2);
    assert_eq!((rows[0].region_id, rows[0].type_id), (FORGE, 34));
    assert_eq!((rows[1].region_id, rows[1].type_id, rows[1].num_orders), (DOMAIN, 35, 8));
    assert_eq!(rows[0].fields, vec!["10000002|34|false", "5.1", "6", "4", "0.1", "5", "1000000", "50", "4.5", "123"]);
    assert!(aggregates_from_gzip_csv(b"not gzip at all", FORGE, DOMAIN).is_err());
}

#[test]
fn discovery_error_reports() {
    assert_eq!(discovery_errors(None, None, None), "");
    assert_eq!(discovery_errors(Some("timeout"), None, None), "item types: timeout");
    assert_eq!(
        discovery_errors(Some("a"), Some("b"), Some("c")),
        "item types: a\nmarket snapshot: b\ncandidates: c"
    );
    assert_eq!(discovery_errors(None, Some("bad gzip"), Some("locked")), "market snapshot: bad gzip\ncandidates: locked");
}
