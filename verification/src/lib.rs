pub mod text;
pub mod claims;
pub mod codec;
pub mod text_map;
pub mod json;
pub mod image_grader;
pub mod imageresize;
pub mod paths;
pub mod genre_cleanup;
pub mod coverart;
pub mod artist_store;
pub mod musicbrainz;
pub mod fanarttv;
pub mod imagecache;
pub mod attributecache;
pub mod favourites;
pub mod bluez;
pub mod mpris;
pub mod http_client;
pub mod lastfm;
pub mod coverart_providers;
pub mod macaddress;
pub mod external_coverart;
pub mod albumupdater;
pub mod global_volume;
