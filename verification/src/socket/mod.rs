pub mod af_xdp;
