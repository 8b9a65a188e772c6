//! One function for each thing that is counted. While counters are not kept, none of them
//! changes anything.
use crate::telemetry::core_counters::{lemma_base_codes, lemma_core_codes};
use crate::telemetry::{BaseCounters, CoreCounters, Telemetry, is_enabled, low_bits, wrapped};
use vstd::prelude::*;

verus! {

/// Counts: connection create.
pub fn record_connection_create(telemetry: &mut Telemetry)
    ensures
        *final(telemetry) == if old(telemetry).enabled {
            Telemetry {
                core: CoreCounters {
                    connection_create: old(telemetry).core.connection_create.plus_one(),
                    ..old(telemetry).core
                },
                ..*old(telemetry)
            }
        } else {
            *old(telemetry)
        },
        old(telemetry).core.named() ==> final(telemetry).core.named() && final(telemetry).core.counters()
            == if old(telemetry).enabled {
            old(telemetry).core.counters().insert(
                "connection_create"@,
                old(telemetry).core.connection_create.plus_one().value,
            )
        } else {
            old(telemetry).core.counters()
        },
{
    if is_enabled(telemetry) {
        telemetry.core.connection_create.increment();
    }
    proof {
        if old(telemetry).core.named() {
            lemma_core_codes(old(telemetry).core);
            assert(telemetry.core.counters() =~= if old(telemetry).enabled {
                old(telemetry).core.counters().insert(
                "connection_create"@,
                old(telemetry).core.connection_create.plus_one().value,
            )
            } else {
                old(telemetry).core.counters()
            });
        }
    }
}

/// Counts: connection reuse.
pub fn record_connection_reuse(telemetry: &mut Telemetry)
    ensures
        *final(telemetry) == if old(telemetry).enabled {
            Telemetry {
                core: CoreCounters {
                    connection_reuse: old(telemetry).core.connection_reuse.plus_one(),
                    ..old(telemetry).core
                },
                ..*old(telemetry)
            }
        } else {
            *old(telemetry)
        },
        old(telemetry).core.named() ==> final(telemetry).core.named() && final(telemetry).core.counters()
            == if old(telemetry).enabled {
            old(telemetry).core.counters().insert(
                "connection_reuse"@,
                old(telemetry).core.connection_reuse.plus_one().value,
            )
        } else {
            old(telemetry).core.counters()
        },
{
    if is_enabled(telemetry) {
        telemetry.core.connection_reuse.increment();
    }
    proof {
        if old(telemetry).core.named() {
            lemma_core_codes(old(telemetry).core);
            assert(telemetry.core.counters() =~= if old(telemetry).enabled {
                old(telemetry).core.counters().insert(
                "connection_reuse"@,
                old(telemetry).core.connection_reuse.plus_one().value,
            )
            } else {
                old(telemetry).core.counters()
            });
        }
    }
}

/// Counts: connection drop discard.
pub fn record_connection_drop_discard(telemetry: &mut Telemetry)
    ensures
        *final(telemetry) == if old(telemetry).enabled {
            Telemetry {
                core: CoreCounters {
                    connection_drop_discards: old(telemetry).core.connection_drop_discards.plus_one(),
                    ..old(telemetry).core
                },
                ..*old(telemetry)
            }
        } else {
            *old(telemetry)
        },
        old(telemetry).core.named() ==> final(telemetry).core.named() && final(telemetry).core.counters()
            == if old(telemetry).enabled {
            old(telemetry).core.counters().insert(
                "connection_drop_discards"@,
                old(telemetry).core.connection_drop_discards.plus_one().value,
            )
        } else {
            old(telemetry).core.counters()
        },
{
    if is_enabled(telemetry) {
        telemetry.core.connection_drop_discards.increment();
    }
    proof {
        if old(telemetry).core.named() {
            lemma_core_codes(old(telemetry).core);
            assert(telemetry.core.counters() =~= if old(telemetry).enabled {
                old(telemetry).core.counters().insert(
                "connection_drop_discards"@,
                old(telemetry).core.connection_drop_discards.plus_one().value,
            )
            } else {
                old(telemetry).core.counters()
            });
        }
    }
}

/// Counts: connection health eviction.
pub fn record_connection_health_eviction(telemetry: &mut Telemetry)
    ensures
        *final(telemetry) == if old(telemetry).enabled {
            Telemetry {
                core: CoreCounters {
                    connection_health_evictions: old(telemetry).core.connection_health_evictions.plus_one(),
                    ..old(telemetry).core
                },
                ..*old(telemetry)
            }
        } else {
            *old(telemetry)
        },
        old(telemetry).core.named() ==> final(telemetry).core.named() && final(telemetry).core.counters()
            == if old(telemetry).enabled {
            old(telemetry).core.counters().insert(
                "connection_health_evictions"@,
                old(telemetry).core.connection_health_evictions.plus_one().value,
            )
        } else {
            old(telemetry).core.counters()
        },
{
    if is_enabled(telemetry) {
        telemetry.core.connection_health_evictions.increment();
    }
    proof {
        if old(telemetry).core.named() {
            lemma_core_codes(old(telemetry).core);
            assert(telemetry.core.counters() =~= if old(telemetry).enabled {
                old(telemetry).core.counters().insert(
                "connection_health_evictions"@,
                old(telemetry).core.connection_health_evictions.plus_one().value,
            )
            } else {
                old(telemetry).core.counters()
            });
        }
    }
}

/// Counts: lookup.
pub fn record_lookup(telemetry: &mut Telemetry)
    ensures
        *final(telemetry) == if old(telemetry).enabled {
            Telemetry {
                core: CoreCounters {
                    lookup_count: old(telemetry).core.lookup_count.plus_one(),
                    ..old(telemetry).core
                },
                ..*old(telemetry)
            }
        } else {
            *old(telemetry)
        },
        old(telemetry).core.named() ==> final(telemetry).core.named() && final(telemetry).core.counters()
            == if old(telemetry).enabled {
            old(telemetry).core.counters().insert(
                "lookup_count"@,
                old(telemetry).core.lookup_count.plus_one().value,
            )
        } else {
            old(telemetry).core.counters()
        },
{
    if is_enabled(telemetry) {
        telemetry.core.lookup_count.increment();
    }
    proof {
        if old(telemetry).core.named() {
            lemma_core_codes(old(telemetry).core);
            assert(telemetry.core.counters() =~= if old(telemetry).enabled {
                old(telemetry).core.counters().insert(
                "lookup_count"@,
                old(telemetry).core.lookup_count.plus_one().value,
            )
            } else {
                old(telemetry).core.counters()
            });
        }
    }
}

/// Counts: lookup delta.
pub fn record_lookup_delta(telemetry: &mut Telemetry)
    ensures
        *final(telemetry) == if old(telemetry).enabled {
            Telemetry {
                core: CoreCounters {
                    lookup_delta_count: old(telemetry).core.lookup_delta_count.plus_one(),
                    ..old(telemetry).core
                },
                ..*old(telemetry)
            }
        } else {
            *old(telemetry)
        },
        old(telemetry).core.named() ==> final(telemetry).core.named() && final(telemetry).core.counters()
            == if old(telemetry).enabled {
            old(telemetry).core.counters().insert(
                "lookup_delta_count"@,
                old(telemetry).core.lookup_delta_count.plus_one().value,
            )
        } else {
            old(telemetry).core.counters()
        },
{
    if is_enabled(telemetry) {
        telemetry.core.lookup_delta_count.increment();
    }
    proof {
        if old(telemetry).core.named() {
            lemma_core_codes(old(telemetry).core);
            assert(telemetry.core.counters() =~= if old(telemetry).enabled {
                old(telemetry).core.counters().insert(
                "lookup_delta_count"@,
                old(telemetry).core.lookup_delta_count.plus_one().value,
            )
            } else {
                old(telemetry).core.counters()
            });
        }
    }
}

/// Counts: lookup base.
pub fn record_lookup_base(telemetry: &mut Telemetry)
    ensures
        *final(telemetry) == if old(telemetry).enabled {
            Telemetry {
                core: CoreCounters {
                    lookup_base_count: old(telemetry).core.lookup_base_count.plus_one(),
                    ..old(telemetry).core
                },
                ..*old(telemetry)
            }
        } else {
            *old(telemetry)
        },
        old(telemetry).core.named() ==> final(telemetry).core.named() && final(telemetry).core.counters()
            == if old(telemetry).enabled {
            old(telemetry).core.counters().insert(
                "lookup_base_count"@,
                old(telemetry).core.lookup_base_count.plus_one().value,
            )
        } else {
            old(telemetry).core.counters()
        },
{
    if is_enabled(telemetry) {
        telemetry.core.lookup_base_count.increment();
    }
    proof {
        if old(telemetry).core.named() {
            lemma_core_codes(old(telemetry).core);
            assert(telemetry.core.counters() =~= if old(telemetry).enabled {
                old(telemetry).core.counters().insert(
                "lookup_base_count"@,
                old(telemetry).core.lookup_base_count.plus_one().value,
            )
            } else {
                old(telemetry).core.counters()
            });
        }
    }
}

/// Counts: lookup whiteout.
pub fn record_lookup_whiteout(telemetry: &mut Telemetry)
    ensures
        *final(telemetry) == if old(telemetry).enabled {
            Telemetry {
                core: CoreCounters {
                    lookup_whiteout_count: old(telemetry).core.lookup_whiteout_count.plus_one(),
                    ..old(telemetry).core
                },
                ..*old(telemetry)
            }
        } else {
            *old(telemetry)
        },
        old(telemetry).core.named() ==> final(telemetry).core.named() && final(telemetry).core.counters()
            == if old(telemetry).enabled {
            old(telemetry).core.counters().insert(
                "lookup_whiteout_count"@,
                old(telemetry).core.lookup_whiteout_count.plus_one().value,
            )
        } else {
            old(telemetry).core.counters()
        },
{
    if is_enabled(telemetry) {
        telemetry.core.lookup_whiteout_count.increment();
    }
    proof {
        if old(telemetry).core.named() {
            lemma_core_codes(old(telemetry).core);
            assert(telemetry.core.counters() =~= if old(telemetry).enabled {
                old(telemetry).core.counters().insert(
                "lookup_whiteout_count"@,
                old(telemetry).core.lookup_whiteout_count.plus_one().value,
            )
            } else {
                old(telemetry).core.counters()
            });
        }
    }
}

/// Counts: getattr.
pub fn record_getattr(telemetry: &mut Telemetry)
    ensures
        *final(telemetry) == if old(telemetry).enabled {
            Telemetry {
                core: CoreCounters {
                    getattr_count: old(telemetry).core.getattr_count.plus_one(),
                    ..old(telemetry).core
                },
                ..*old(telemetry)
            }
        } else {
            *old(telemetry)
        },
        old(telemetry).core.named() ==> final(telemetry).core.named() && final(telemetry).core.counters()
            == if old(telemetry).enabled {
            old(telemetry).core.counters().insert(
                "getattr_count"@,
                old(telemetry).core.getattr_count.plus_one().value,
            )
        } else {
            old(telemetry).core.counters()
        },
{
    if is_enabled(telemetry) {
        telemetry.core.getattr_count.increment();
    }
    proof {
        if old(telemetry).core.named() {
            lemma_core_codes(old(telemetry).core);
            assert(telemetry.core.counters() =~= if old(telemetry).enabled {
                old(telemetry).core.counters().insert(
                "getattr_count"@,
                old(telemetry).core.getattr_count.plus_one().value,
            )
            } else {
                old(telemetry).core.counters()
            });
        }
    }
}

/// Counts: readdir.
pub fn record_readdir(telemetry: &mut Telemetry)
    ensures
        *final(telemetry) == if old(telemetry).enabled {
            Telemetry {
                core: CoreCounters {
                    readdir_count: old(telemetry).core.readdir_count.plus_one(),
                    ..old(telemetry).core
                },
                ..*old(telemetry)
            }
        } else {
            *old(telemetry)
        },
        old(telemetry).core.named() ==> final(telemetry).core.named() && final(telemetry).core.counters()
            == if old(telemetry).enabled {
            old(telemetry).core.counters().insert(
                "readdir_count"@,
                old(telemetry).core.readdir_count.plus_one().value,
            )
        } else {
            old(telemetry).core.counters()
        },
{
    if is_enabled(telemetry) {
        telemetry.core.readdir_count.increment();
    }
    proof {
        if old(telemetry).core.named() {
            lemma_core_codes(old(telemetry).core);
            assert(telemetry.core.counters() =~= if old(telemetry).enabled {
                old(telemetry).core.counters().insert(
                "readdir_count"@,
                old(telemetry).core.readdir_count.plus_one().value,
            )
            } else {
                old(telemetry).core.counters()
            });
        }
    }
}

/// Counts: readdir plus.
pub fn record_readdir_plus(telemetry: &mut Telemetry)
    ensures
        *final(telemetry) == if old(telemetry).enabled {
            Telemetry {
                core: CoreCounters {
                    readdir_plus_count: old(telemetry).core.readdir_plus_count.plus_one(),
                    ..old(telemetry).core
                },
                ..*old(telemetry)
            }
        } else {
            *old(telemetry)
        },
        old(telemetry).core.named() ==> final(telemetry).core.named() && final(telemetry).core.counters()
            == if old(telemetry).enabled {
            old(telemetry).core.counters().insert(
                "readdir_plus_count"@,
                old(telemetry).core.readdir_plus_count.plus_one().value,
            )
        } else {
            old(telemetry).core.counters()
        },
{
    if is_enabled(telemetry) {
        telemetry.core.readdir_plus_count.increment();
    }
    proof {
        if old(telemetry).core.named() {
            lemma_core_codes(old(telemetry).core);
            assert(telemetry.core.counters() =~= if old(telemetry).enabled {
                old(telemetry).core.counters().insert(
                "readdir_plus_count"@,
                old(telemetry).core.readdir_plus_count.plus_one().value,
            )
            } else {
                old(telemetry).core.counters()
            });
        }
    }
}

/// Counts: path resolution.
pub fn record_path_resolution(telemetry: &mut Telemetry, components: u64)
    ensures
        *final(telemetry) == if old(telemetry).enabled {
            Telemetry {
                core: CoreCounters {
                    path_resolution_count: old(telemetry).core.path_resolution_count.plus_one(),
                    path_component_count: old(telemetry).core.path_component_count.plus(components),
                    ..old(telemetry).core
                },
                ..*old(telemetry)
            }
        } else {
            *old(telemetry)
        },
        old(telemetry).core.named() ==> final(telemetry).core.named() && final(telemetry).core.counters()
            == if old(telemetry).enabled {
            old(telemetry).core.counters().insert(
                "path_resolution_count"@,
                old(telemetry).core.path_resolution_count.plus_one().value,
            ).insert(
                "path_component_count"@,
                old(telemetry).core.path_component_count.plus(components).value,
            )
        } else {
            old(telemetry).core.counters()
        },
{
    if is_enabled(telemetry) {
        telemetry.core.path_resolution_count.increment();
        telemetry.core.path_component_count.add(components);
    }
    proof {
        if old(telemetry).core.named() {
            lemma_core_codes(old(telemetry).core);
            assert(telemetry.core.counters() =~= if old(telemetry).enabled {
                old(telemetry).core.counters().insert(
                "path_resolution_count"@,
                old(telemetry).core.path_resolution_count.plus_one().value,
            ).insert(
                "path_component_count"@,
                old(telemetry).core.path_component_count.plus(components).value,
            )
            } else {
                old(telemetry).core.counters()
            });
        }
    }
}

/// Counts: path cache hit.
pub fn record_path_cache_hit(telemetry: &mut Telemetry)
    ensures
        *final(telemetry) == if old(telemetry).enabled {
            Telemetry {
                core: CoreCounters {
                    path_cache_hits: old(telemetry).core.path_cache_hits.plus_one(),
                    ..old(telemetry).core
                },
                ..*old(telemetry)
            }
        } else {
            *old(telemetry)
        },
        old(telemetry).core.named() ==> final(telemetry).core.named() && final(telemetry).core.counters()
            == if old(telemetry).enabled {
            old(telemetry).core.counters().insert(
                "path_cache_hits"@,
                old(telemetry).core.path_cache_hits.plus_one().value,
            )
        } else {
            old(telemetry).core.counters()
        },
{
    if is_enabled(telemetry) {
        telemetry.core.path_cache_hits.increment();
    }
    proof {
        if old(telemetry).core.named() {
            lemma_core_codes(old(telemetry).core);
            assert(telemetry.core.counters() =~= if old(telemetry).enabled {
                old(telemetry).core.counters().insert(
                "path_cache_hits"@,
                old(telemetry).core.path_cache_hits.plus_one().value,
            )
            } else {
                old(telemetry).core.counters()
            });
        }
    }
}

/// Counts: path cache miss.
pub fn record_path_cache_miss(telemetry: &mut Telemetry)
    ensures
        *final(telemetry) == if old(telemetry).enabled {
            Telemetry {
                core: CoreCounters {
                    path_cache_misses: old(telemetry).core.path_cache_misses.plus_one(),
                    ..old(telemetry).core
                },
                ..*old(telemetry)
            }
        } else {
            *old(telemetry)
        },
        old(telemetry).core.named() ==> final(telemetry).core.named() && final(telemetry).core.counters()
            == if old(telemetry).enabled {
            old(telemetry).core.counters().insert(
                "path_cache_misses"@,
                old(telemetry).core.path_cache_misses.plus_one().value,
            )
        } else {
            old(telemetry).core.counters()
        },
{
    if is_enabled(telemetry) {
        telemetry.core.path_cache_misses.increment();
    }
    proof {
        if old(telemetry).core.named() {
            lemma_core_codes(old(telemetry).core);
            assert(telemetry.core.counters() =~= if old(telemetry).enabled {
                old(telemetry).core.counters().insert(
                "path_cache_misses"@,
                old(telemetry).core.path_cache_misses.plus_one().value,
            )
            } else {
                old(telemetry).core.counters()
            });
        }
    }
}

/// Counts: negative lookup.
pub fn record_negative_lookup(telemetry: &mut Telemetry)
    ensures
        *final(telemetry) == if old(telemetry).enabled {
            Telemetry {
                core: CoreCounters {
                    negative_lookup_count: old(telemetry).core.negative_lookup_count.plus_one(),
                    ..old(telemetry).core
                },
                ..*old(telemetry)
            }
        } else {
            *old(telemetry)
        },
        old(telemetry).core.named() ==> final(telemetry).core.named() && final(telemetry).core.counters()
            == if old(telemetry).enabled {
            old(telemetry).core.counters().insert(
                "negative_lookup_count"@,
                old(telemetry).core.negative_lookup_count.plus_one().value,
            )
        } else {
            old(telemetry).core.counters()
        },
{
    if is_enabled(telemetry) {
        telemetry.core.negative_lookup_count.increment();
    }
    proof {
        if old(telemetry).core.named() {
            lemma_core_codes(old(telemetry).core);
            assert(telemetry.core.counters() =~= if old(telemetry).enabled {
                old(telemetry).core.counters().insert(
                "negative_lookup_count"@,
                old(telemetry).core.negative_lookup_count.plus_one().value,
            )
            } else {
                old(telemetry).core.counters()
            });
        }
    }
}

/// Counts: negative cache hit.
pub fn record_negative_cache_hit(telemetry: &mut Telemetry)
    ensures
        *final(telemetry) == if old(telemetry).enabled {
            Telemetry {
                core: CoreCounters {
                    negative_cache_hits: old(telemetry).core.negative_cache_hits.plus_one(),
                    ..old(telemetry).core
                },
                ..*old(telemetry)
            }
        } else {
            *old(telemetry)
        },
        old(telemetry).core.named() ==> final(telemetry).core.named() && final(telemetry).core.counters()
            == if old(telemetry).enabled {
            old(telemetry).core.counters().insert(
                "negative_cache_hits"@,
                old(telemetry).core.negative_cache_hits.plus_one().value,
            )
        } else {
            old(telemetry).core.counters()
        },
{
    if is_enabled(telemetry) {
        telemetry.core.negative_cache_hits.increment();
    }
    proof {
        if old(telemetry).core.named() {
            lemma_core_codes(old(telemetry).core);
            assert(telemetry.core.counters() =~= if old(telemetry).enabled {
                old(telemetry).core.counters().insert(
                "negative_cache_hits"@,
                old(telemetry).core.negative_cache_hits.plus_one().value,
            )
            } else {
                old(telemetry).core.counters()
            });
        }
    }
}

/// Counts: negative cache miss.
pub fn record_negative_cache_miss(telemetry: &mut Telemetry)
    ensures
        *final(telemetry) == if old(telemetry).enabled {
            Telemetry {
                core: CoreCounters {
                    negative_cache_misses: old(telemetry).core.negative_cache_misses.plus_one(),
                    ..old(telemetry).core
                },
                ..*old(telemetry)
            }
        } else {
            *old(telemetry)
        },
        old(telemetry).core.named() ==> final(telemetry).core.named() && final(telemetry).core.counters()
            == if old(telemetry).enabled {
            old(telemetry).core.counters().insert(
                "negative_cache_misses"@,
                old(telemetry).core.negative_cache_misses.plus_one().value,
            )
        } else {
            old(telemetry).core.counters()
        },
{
    if is_enabled(telemetry) {
        telemetry.core.negative_cache_misses.increment();
    }
    proof {
        if old(telemetry).core.named() {
            lemma_core_codes(old(telemetry).core);
            assert(telemetry.core.counters() =~= if old(telemetry).enabled {
                old(telemetry).core.counters().insert(
                "negative_cache_misses"@,
                old(telemetry).core.negative_cache_misses.plus_one().value,
            )
            } else {
                old(telemetry).core.counters()
            });
        }
    }
}

/// Counts: negative cache invalidation.
pub fn record_negative_cache_invalidation(telemetry: &mut Telemetry)
    ensures
        *final(telemetry) == if old(telemetry).enabled {
            Telemetry {
                core: CoreCounters {
                    negative_cache_invalidations: old(telemetry).core.negative_cache_invalidations.plus_one(),
                    ..old(telemetry).core
                },
                ..*old(telemetry)
            }
        } else {
            *old(telemetry)
        },
        old(telemetry).core.named() ==> final(telemetry).core.named() && final(telemetry).core.counters()
            == if old(telemetry).enabled {
            old(telemetry).core.counters().insert(
                "negative_cache_invalidations"@,
                old(telemetry).core.negative_cache_invalidations.plus_one().value,
            )
        } else {
            old(telemetry).core.counters()
        },
{
    if is_enabled(telemetry) {
        telemetry.core.negative_cache_invalidations.increment();
    }
    proof {
        if old(telemetry).core.named() {
            lemma_core_codes(old(telemetry).core);
            assert(telemetry.core.counters() =~= if old(telemetry).enabled {
                old(telemetry).core.counters().insert(
                "negative_cache_invalidations"@,
                old(telemetry).core.negative_cache_invalidations.plus_one().value,
            )
            } else {
                old(telemetry).core.counters()
            });
        }
    }
}

/// Counts: attr cache hit.
pub fn record_attr_cache_hit(telemetry: &mut Telemetry)
    ensures
        *final(telemetry) == if old(telemetry).enabled {
            Telemetry {
                core: CoreCounters {
                    attr_cache_hits: old(telemetry).core.attr_cache_hits.plus_one(),
                    ..old(telemetry).core
                },
                ..*old(telemetry)
            }
        } else {
            *old(telemetry)
        },
        old(telemetry).core.named() ==> final(telemetry).core.named() && final(telemetry).core.counters()
            == if old(telemetry).enabled {
            old(telemetry).core.counters().insert(
                "attr_cache_hits"@,
                old(telemetry).core.attr_cache_hits.plus_one().value,
            )
        } else {
            old(telemetry).core.counters()
        },
{
    if is_enabled(telemetry) {
        telemetry.core.attr_cache_hits.increment();
    }
    proof {
        if old(telemetry).core.named() {
            lemma_core_codes(old(telemetry).core);
            assert(telemetry.core.counters() =~= if old(telemetry).enabled {
                old(telemetry).core.counters().insert(
                "attr_cache_hits"@,
                old(telemetry).core.attr_cache_hits.plus_one().value,
            )
            } else {
                old(telemetry).core.counters()
            });
        }
    }
}

/// Counts: attr cache miss.
pub fn record_attr_cache_miss(telemetry: &mut Telemetry)
    ensures
        *final(telemetry) == if old(telemetry).enabled {
            Telemetry {
                core: CoreCounters {
                    attr_cache_misses: old(telemetry).core.attr_cache_misses.plus_one(),
                    ..old(telemetry).core
                },
                ..*old(telemetry)
            }
        } else {
            *old(telemetry)
        },
        old(telemetry).core.named() ==> final(telemetry).core.named() && final(telemetry).core.counters()
            == if old(telemetry).enabled {
            old(telemetry).core.counters().insert(
                "attr_cache_misses"@,
                old(telemetry).core.attr_cache_misses.plus_one().value,
            )
        } else {
            old(telemetry).core.counters()
        },
{
    if is_enabled(telemetry) {
        telemetry.core.attr_cache_misses.increment();
    }
    proof {
        if old(telemetry).core.named() {
            lemma_core_codes(old(telemetry).core);
            assert(telemetry.core.counters() =~= if old(telemetry).enabled {
                old(telemetry).core.counters().insert(
                "attr_cache_misses"@,
                old(telemetry).core.attr_cache_misses.plus_one().value,
            )
            } else {
                old(telemetry).core.counters()
            });
        }
    }
}

/// Counts: dentry cache hit.
pub fn record_dentry_cache_hit(telemetry: &mut Telemetry)
    ensures
        *final(telemetry) == if old(telemetry).enabled {
            Telemetry {
                core: CoreCounters {
                    dentry_cache_hits: old(telemetry).core.dentry_cache_hits.plus_one(),
                    ..old(telemetry).core
                },
                ..*old(telemetry)
            }
        } else {
            *old(telemetry)
        },
        old(telemetry).core.named() ==> final(telemetry).core.named() && final(telemetry).core.counters()
            == if old(telemetry).enabled {
            old(telemetry).core.counters().insert(
                "dentry_cache_hits"@,
                old(telemetry).core.dentry_cache_hits.plus_one().value,
            )
        } else {
            old(telemetry).core.counters()
        },
{
    if is_enabled(telemetry) {
        telemetry.core.dentry_cache_hits.increment();
    }
    proof {
        if old(telemetry).core.named() {
            lemma_core_codes(old(telemetry).core);
            assert(telemetry.core.counters() =~= if old(telemetry).enabled {
                old(telemetry).core.counters().insert(
                "dentry_cache_hits"@,
                old(telemetry).core.dentry_cache_hits.plus_one().value,
            )
            } else {
                old(telemetry).core.counters()
            });
        }
    }
}

/// Counts: dentry cache miss.
pub fn record_dentry_cache_miss(telemetry: &mut Telemetry)
    ensures
        *final(telemetry) == if old(telemetry).enabled {
            Telemetry {
                core: CoreCounters {
                    dentry_cache_misses: old(telemetry).core.dentry_cache_misses.plus_one(),
                    ..old(telemetry).core
                },
                ..*old(telemetry)
            }
        } else {
            *old(telemetry)
        },
        old(telemetry).core.named() ==> final(telemetry).core.named() && final(telemetry).core.counters()
            == if old(telemetry).enabled {
            old(telemetry).core.counters().insert(
                "dentry_cache_misses"@,
                old(telemetry).core.dentry_cache_misses.plus_one().value,
            )
        } else {
            old(telemetry).core.counters()
        },
{
    if is_enabled(telemetry) {
        telemetry.core.dentry_cache_misses.increment();
    }
    proof {
        if old(telemetry).core.named() {
            lemma_core_codes(old(telemetry).core);
            assert(telemetry.core.counters() =~= if old(telemetry).enabled {
                old(telemetry).core.counters().insert(
                "dentry_cache_misses"@,
                old(telemetry).core.dentry_cache_misses.plus_one().value,
            )
            } else {
                old(telemetry).core.counters()
            });
        }
    }
}

/// Counts: chunk read query.
pub fn record_chunk_read_query(telemetry: &mut Telemetry)
    ensures
        *final(telemetry) == if old(telemetry).enabled {
            Telemetry {
                core: CoreCounters {
                    chunk_read_queries: old(telemetry).core.chunk_read_queries.plus_one(),
                    ..old(telemetry).core
                },
                ..*old(telemetry)
            }
        } else {
            *old(telemetry)
        },
        old(telemetry).core.named() ==> final(telemetry).core.named() && final(telemetry).core.counters()
            == if old(telemetry).enabled {
            old(telemetry).core.counters().insert(
                "chunk_read_queries"@,
                old(telemetry).core.chunk_read_queries.plus_one().value,
            )
        } else {
            old(telemetry).core.counters()
        },
{
    if is_enabled(telemetry) {
        telemetry.core.chunk_read_queries.increment();
    }
    proof {
        if old(telemetry).core.named() {
            lemma_core_codes(old(telemetry).core);
            assert(telemetry.core.counters() =~= if old(telemetry).enabled {
                old(telemetry).core.counters().insert(
                "chunk_read_queries"@,
                old(telemetry).core.chunk_read_queries.plus_one().value,
            )
            } else {
                old(telemetry).core.counters()
            });
        }
    }
}

/// Counts: chunk read chunks.
pub fn record_chunk_read_chunks(telemetry: &mut Telemetry, chunks: u64)
    ensures
        *final(telemetry) == if old(telemetry).enabled {
            Telemetry {
                core: CoreCounters {
                    chunk_read_chunks: old(telemetry).core.chunk_read_chunks.plus(chunks),
                    ..old(telemetry).core
                },
                ..*old(telemetry)
            }
        } else {
            *old(telemetry)
        },
        old(telemetry).core.named() ==> final(telemetry).core.named() && final(telemetry).core.counters()
            == if old(telemetry).enabled {
            old(telemetry).core.counters().insert(
                "chunk_read_chunks"@,
                old(telemetry).core.chunk_read_chunks.plus(chunks).value,
            )
        } else {
            old(telemetry).core.counters()
        },
{
    if is_enabled(telemetry) {
        telemetry.core.chunk_read_chunks.add(chunks);
    }
    proof {
        if old(telemetry).core.named() {
            lemma_core_codes(old(telemetry).core);
            assert(telemetry.core.counters() =~= if old(telemetry).enabled {
                old(telemetry).core.counters().insert(
                "chunk_read_chunks"@,
                old(telemetry).core.chunk_read_chunks.plus(chunks).value,
            )
            } else {
                old(telemetry).core.counters()
            });
        }
    }
}

/// Counts: chunk write chunks.
pub fn record_chunk_write_chunks(telemetry: &mut Telemetry, chunks: u64)
    ensures
        *final(telemetry) == if old(telemetry).enabled {
            Telemetry {
                core: CoreCounters {
                    chunk_write_chunks: old(telemetry).core.chunk_write_chunks.plus(chunks),
                    ..old(telemetry).core
                },
                ..*old(telemetry)
            }
        } else {
            *old(telemetry)
        },
        old(telemetry).core.named() ==> final(telemetry).core.named() && final(telemetry).core.counters()
            == if old(telemetry).enabled {
            old(telemetry).core.counters().insert(
                "chunk_write_chunks"@,
                old(telemetry).core.chunk_write_chunks.plus(chunks).value,
            )
        } else {
            old(telemetry).core.counters()
        },
{
    if is_enabled(telemetry) {
        telemetry.core.chunk_write_chunks.add(chunks);
    }
    proof {
        if old(telemetry).core.named() {
            lemma_core_codes(old(telemetry).core);
            assert(telemetry.core.counters() =~= if old(telemetry).enabled {
                old(telemetry).core.counters().insert(
                "chunk_write_chunks"@,
                old(telemetry).core.chunk_write_chunks.plus(chunks).value,
            )
            } else {
                old(telemetry).core.counters()
            });
        }
    }
}

/// Counts: agentfs batcher enqueue.
pub fn record_agentfs_batcher_enqueue(telemetry: &mut Telemetry)
    ensures
        *final(telemetry) == if old(telemetry).enabled {
            Telemetry {
                core: CoreCounters {
                    agentfs_batcher_enqueues: old(telemetry).core.agentfs_batcher_enqueues.plus_one(),
                    ..old(telemetry).core
                },
                ..*old(telemetry)
            }
        } else {
            *old(telemetry)
        },
        old(telemetry).core.named() ==> final(telemetry).core.named() && final(telemetry).core.counters()
            == if old(telemetry).enabled {
            old(telemetry).core.counters().insert(
                "agentfs_batcher_enqueues"@,
                old(telemetry).core.agentfs_batcher_enqueues.plus_one().value,
            )
        } else {
            old(telemetry).core.counters()
        },
{
    if is_enabled(telemetry) {
        telemetry.core.agentfs_batcher_enqueues.increment();
    }
    proof {
        if old(telemetry).core.named() {
            lemma_core_codes(old(telemetry).core);
            assert(telemetry.core.counters() =~= if old(telemetry).enabled {
                old(telemetry).core.counters().insert(
                "agentfs_batcher_enqueues"@,
                old(telemetry).core.agentfs_batcher_enqueues.plus_one().value,
            )
            } else {
                old(telemetry).core.counters()
            });
        }
    }
}

/// Counts: agentfs batcher drain timer.
pub fn record_agentfs_batcher_drain_timer(telemetry: &mut Telemetry)
    ensures
        *final(telemetry) == if old(telemetry).enabled {
            Telemetry {
                core: CoreCounters {
                    agentfs_batcher_drains_timer: old(telemetry).core.agentfs_batcher_drains_timer.plus_one(),
                    ..old(telemetry).core
                },
                ..*old(telemetry)
            }
        } else {
            *old(telemetry)
        },
        old(telemetry).core.named() ==> final(telemetry).core.named() && final(telemetry).core.counters()
            == if old(telemetry).enabled {
            old(telemetry).core.counters().insert(
                "agentfs_batcher_drains_timer"@,
                old(telemetry).core.agentfs_batcher_drains_timer.plus_one().value,
            )
        } else {
            old(telemetry).core.counters()
        },
{
    if is_enabled(telemetry) {
        telemetry.core.agentfs_batcher_drains_timer.increment();
    }
    proof {
        if old(telemetry).core.named() {
            lemma_core_codes(old(telemetry).core);
            assert(telemetry.core.counters() =~= if old(telemetry).enabled {
                old(telemetry).core.counters().insert(
                "agentfs_batcher_drains_timer"@,
                old(telemetry).core.agentfs_batcher_drains_timer.plus_one().value,
            )
            } else {
                old(telemetry).core.counters()
            });
        }
    }
}

/// Counts: agentfs batcher drain bytes.
pub fn record_agentfs_batcher_drain_bytes(telemetry: &mut Telemetry)
    ensures
        *final(telemetry) == if old(telemetry).enabled {
            Telemetry {
                core: CoreCounters {
                    agentfs_batcher_drains_bytes: old(telemetry).core.agentfs_batcher_drains_bytes.plus_one(),
                    ..old(telemetry).core
                },
                ..*old(telemetry)
            }
        } else {
            *old(telemetry)
        },
        old(telemetry).core.named() ==> final(telemetry).core.named() && final(telemetry).core.counters()
            == if old(telemetry).enabled {
            old(telemetry).core.counters().insert(
                "agentfs_batcher_drains_bytes"@,
                old(telemetry).core.agentfs_batcher_drains_bytes.plus_one().value,
            )
        } else {
            old(telemetry).core.counters()
        },
{
    if is_enabled(telemetry) {
        telemetry.core.agentfs_batcher_drains_bytes.increment();
    }
    proof {
        if old(telemetry).core.named() {
            lemma_core_codes(old(telemetry).core);
            assert(telemetry.core.counters() =~= if old(telemetry).enabled {
                old(telemetry).core.counters().insert(
                "agentfs_batcher_drains_bytes"@,
                old(telemetry).core.agentfs_batcher_drains_bytes.plus_one().value,
            )
            } else {
                old(telemetry).core.counters()
            });
        }
    }
}

/// Counts: agentfs batcher drain explicit.
pub fn record_agentfs_batcher_drain_explicit(telemetry: &mut Telemetry)
    ensures
        *final(telemetry) == if old(telemetry).enabled {
            Telemetry {
                core: CoreCounters {
                    agentfs_batcher_drains_explicit: old(telemetry).core.agentfs_batcher_drains_explicit.plus_one(),
                    ..old(telemetry).core
                },
                ..*old(telemetry)
            }
        } else {
            *old(telemetry)
        },
        old(telemetry).core.named() ==> final(telemetry).core.named() && final(telemetry).core.counters()
            == if old(telemetry).enabled {
            old(telemetry).core.counters().insert(
                "agentfs_batcher_drains_explicit"@,
                old(telemetry).core.agentfs_batcher_drains_explicit.plus_one().value,
            )
        } else {
            old(telemetry).core.counters()
        },
{
    if is_enabled(telemetry) {
        telemetry.core.agentfs_batcher_drains_explicit.increment();
    }
    proof {
        if old(telemetry).core.named() {
            lemma_core_codes(old(telemetry).core);
            assert(telemetry.core.counters() =~= if old(telemetry).enabled {
                old(telemetry).core.counters().insert(
                "agentfs_batcher_drains_explicit"@,
                old(telemetry).core.agentfs_batcher_drains_explicit.plus_one().value,
            )
            } else {
                old(telemetry).core.counters()
            });
        }
    }
}

/// Counts: agentfs batcher pending bytes.
pub fn record_agentfs_batcher_pending_bytes(telemetry: &mut Telemetry, pending_bytes: u64)
    ensures
        *final(telemetry) == if old(telemetry).enabled {
            Telemetry {
                core: CoreCounters {
                    agentfs_batcher_pending_max_bytes: old(telemetry).core.agentfs_batcher_pending_max_bytes.with(pending_bytes),
                    ..old(telemetry).core
                },
                ..*old(telemetry)
            }
        } else {
            *old(telemetry)
        },
        old(telemetry).core.named() ==> final(telemetry).core.named() && final(telemetry).core.counters()
            == if old(telemetry).enabled {
            old(telemetry).core.counters().insert(
                "agentfs_batcher_pending_max_bytes"@,
                old(telemetry).core.agentfs_batcher_pending_max_bytes.with(pending_bytes).value,
            )
        } else {
            old(telemetry).core.counters()
        },
{
    if is_enabled(telemetry) {
        telemetry.core.agentfs_batcher_pending_max_bytes.update(pending_bytes);
    }
    proof {
        if old(telemetry).core.named() {
            lemma_core_codes(old(telemetry).core);
            assert(telemetry.core.counters() =~= if old(telemetry).enabled {
                old(telemetry).core.counters().insert(
                "agentfs_batcher_pending_max_bytes"@,
                old(telemetry).core.agentfs_batcher_pending_max_bytes.with(pending_bytes).value,
            )
            } else {
                old(telemetry).core.counters()
            });
        }
    }
}

/// Counts: agentfs batcher coalesced ranges.
pub fn record_agentfs_batcher_coalesced_ranges(telemetry: &mut Telemetry, ranges: u64)
    ensures
        *final(telemetry) == if old(telemetry).enabled && ranges > 0 {
            Telemetry {
                core: CoreCounters {
                    agentfs_batcher_coalesced_ranges: old(telemetry).core.agentfs_batcher_coalesced_ranges.plus(ranges),
                    ..old(telemetry).core
                },
                ..*old(telemetry)
            }
        } else {
            *old(telemetry)
        },
        old(telemetry).core.named() ==> final(telemetry).core.named() && final(telemetry).core.counters()
            == if old(telemetry).enabled {
            old(telemetry).core.counters().insert(
                "agentfs_batcher_coalesced_ranges"@,
                old(telemetry).core.agentfs_batcher_coalesced_ranges.plus(ranges).value,
            )
        } else {
            old(telemetry).core.counters()
        },
{
    if is_enabled(telemetry) && ranges > 0 {
        telemetry.core.agentfs_batcher_coalesced_ranges.add(ranges);
    }
    proof {
        if old(telemetry).core.named() {
            lemma_core_codes(old(telemetry).core);
            assert(telemetry.core.counters() =~= if old(telemetry).enabled {
                old(telemetry).core.counters().insert(
                "agentfs_batcher_coalesced_ranges"@,
                old(telemetry).core.agentfs_batcher_coalesced_ranges.plus(ranges).value,
            )
            } else {
                old(telemetry).core.counters()
            });
        }
    }
}

/// Counts: agentfs batcher commit latency.
pub fn record_agentfs_batcher_commit_latency(telemetry: &mut Telemetry, nanos: u128)
    ensures
        *final(telemetry) == if old(telemetry).enabled {
            Telemetry {
                core: CoreCounters {
                    agentfs_batcher_commit_latency_ns_total: old(telemetry).core.agentfs_batcher_commit_latency_ns_total.plus(wrapped(nanos as int)),
                    ..old(telemetry).core
                },
                ..*old(telemetry)
            }
        } else {
            *old(telemetry)
        },
        old(telemetry).core.named() ==> final(telemetry).core.named() && final(telemetry).core.counters()
            == if old(telemetry).enabled {
            old(telemetry).core.counters().insert(
                "agentfs_batcher_commit_latency_ns_total"@,
                old(telemetry).core.agentfs_batcher_commit_latency_ns_total.plus(wrapped(nanos as int)).value,
            )
        } else {
            old(telemetry).core.counters()
        },
{
    if is_enabled(telemetry) {
        telemetry.core.agentfs_batcher_commit_latency_ns_total.add(low_bits(nanos));
    }
    proof {
        if old(telemetry).core.named() {
            lemma_core_codes(old(telemetry).core);
            assert(telemetry.core.counters() =~= if old(telemetry).enabled {
                old(telemetry).core.counters().insert(
                "agentfs_batcher_commit_latency_ns_total"@,
                old(telemetry).core.agentfs_batcher_commit_latency_ns_total.plus(wrapped(nanos as int)).value,
            )
            } else {
                old(telemetry).core.counters()
            });
        }
    }
}

/// Counts: agentfs batcher commit txn.
pub fn record_agentfs_batcher_commit_txn(telemetry: &mut Telemetry, inodes: u64)
    ensures
        *final(telemetry) == if old(telemetry).enabled {
            Telemetry {
                core: CoreCounters {
                    agentfs_batcher_commit_txns: old(telemetry).core.agentfs_batcher_commit_txns.plus_one(),
                    agentfs_batcher_txn_inodes_total: old(telemetry).core.agentfs_batcher_txn_inodes_total.plus(inodes),
                    agentfs_batcher_txn_inodes_max: old(telemetry).core.agentfs_batcher_txn_inodes_max.with(inodes),
                    ..old(telemetry).core
                },
                ..*old(telemetry)
            }
        } else {
            *old(telemetry)
        },
        old(telemetry).core.named() ==> final(telemetry).core.named() && final(telemetry).core.counters()
            == if old(telemetry).enabled {
            old(telemetry).core.counters().insert(
                "agentfs_batcher_commit_txns"@,
                old(telemetry).core.agentfs_batcher_commit_txns.plus_one().value,
            ).insert(
                "agentfs_batcher_txn_inodes_total"@,
                old(telemetry).core.agentfs_batcher_txn_inodes_total.plus(inodes).value,
            ).insert(
                "agentfs_batcher_txn_inodes_max"@,
                old(telemetry).core.agentfs_batcher_txn_inodes_max.with(inodes).value,
            )
        } else {
            old(telemetry).core.counters()
        },
{
    if is_enabled(telemetry) {
        telemetry.core.agentfs_batcher_commit_txns.increment();
        telemetry.core.agentfs_batcher_txn_inodes_total.add(inodes);
        telemetry.core.agentfs_batcher_txn_inodes_max.update(inodes);
    }
    proof {
        if old(telemetry).core.named() {
            lemma_core_codes(old(telemetry).core);
            assert(telemetry.core.counters() =~= if old(telemetry).enabled {
                old(telemetry).core.counters().insert(
                "agentfs_batcher_commit_txns"@,
                old(telemetry).core.agentfs_batcher_commit_txns.plus_one().value,
            ).insert(
                "agentfs_batcher_txn_inodes_total"@,
                old(telemetry).core.agentfs_batcher_txn_inodes_total.plus(inodes).value,
            ).insert(
                "agentfs_batcher_txn_inodes_max"@,
                old(telemetry).core.agentfs_batcher_txn_inodes_max.with(inodes).value,
            )
            } else {
                old(telemetry).core.counters()
            });
        }
    }
}

/// Counts: base fast open eligible.
pub fn record_base_fast_open_eligible(telemetry: &mut Telemetry)
    ensures
        *final(telemetry) == if old(telemetry).enabled {
            Telemetry {
                base: BaseCounters {
                    base_fast_open_eligible: old(telemetry).base.base_fast_open_eligible.plus_one(),
                    ..old(telemetry).base
                },
                ..*old(telemetry)
            }
        } else {
            *old(telemetry)
        },
        old(telemetry).base.named() ==> final(telemetry).base.named() && final(telemetry).base.counters()
            == if old(telemetry).enabled {
            old(telemetry).base.counters().insert(
                "base_fast_open_eligible"@,
                old(telemetry).base.base_fast_open_eligible.plus_one().value,
            )
        } else {
            old(telemetry).base.counters()
        },
{
    if is_enabled(telemetry) {
        telemetry.base.base_fast_open_eligible.increment();
    }
    proof {
        if old(telemetry).base.named() {
            lemma_base_codes(old(telemetry).base);
            assert(telemetry.base.counters() =~= if old(telemetry).enabled {
                old(telemetry).base.counters().insert(
                "base_fast_open_eligible"@,
                old(telemetry).base.base_fast_open_eligible.plus_one().value,
            )
            } else {
                old(telemetry).base.counters()
            });
        }
    }
}

/// Counts: base fast open keep cache.
pub fn record_base_fast_open_keep_cache(telemetry: &mut Telemetry)
    ensures
        *final(telemetry) == if old(telemetry).enabled {
            Telemetry {
                base: BaseCounters {
                    base_fast_open_keep_cache: old(telemetry).base.base_fast_open_keep_cache.plus_one(),
                    ..old(telemetry).base
                },
                ..*old(telemetry)
            }
        } else {
            *old(telemetry)
        },
        old(telemetry).base.named() ==> final(telemetry).base.named() && final(telemetry).base.counters()
            == if old(telemetry).enabled {
            old(telemetry).base.counters().insert(
                "base_fast_open_keep_cache"@,
                old(telemetry).base.base_fast_open_keep_cache.plus_one().value,
            )
        } else {
            old(telemetry).base.counters()
        },
{
    if is_enabled(telemetry) {
        telemetry.base.base_fast_open_keep_cache.increment();
    }
    proof {
        if old(telemetry).base.named() {
            lemma_base_codes(old(telemetry).base);
            assert(telemetry.base.counters() =~= if old(telemetry).enabled {
                old(telemetry).base.counters().insert(
                "base_fast_open_keep_cache"@,
                old(telemetry).base.base_fast_open_keep_cache.plus_one().value,
            )
            } else {
                old(telemetry).base.counters()
            });
        }
    }
}

/// Counts: base fast open passthrough attempted.
pub fn record_base_fast_open_passthrough_attempted(telemetry: &mut Telemetry)
    ensures
        *final(telemetry) == if old(telemetry).enabled {
            Telemetry {
                base: BaseCounters {
                    base_fast_open_passthrough_attempted: old(telemetry).base.base_fast_open_passthrough_attempted.plus_one(),
                    ..old(telemetry).base
                },
                ..*old(telemetry)
            }
        } else {
            *old(telemetry)
        },
        old(telemetry).base.named() ==> final(telemetry).base.named() && final(telemetry).base.counters()
            == if old(telemetry).enabled {
            old(telemetry).base.counters().insert(
                "base_fast_open_passthrough_attempted"@,
                old(telemetry).base.base_fast_open_passthrough_attempted.plus_one().value,
            )
        } else {
            old(telemetry).base.counters()
        },
{
    if is_enabled(telemetry) {
        telemetry.base.base_fast_open_passthrough_attempted.increment();
    }
    proof {
        if old(telemetry).base.named() {
            lemma_base_codes(old(telemetry).base);
            assert(telemetry.base.counters() =~= if old(telemetry).enabled {
                old(telemetry).base.counters().insert(
                "base_fast_open_passthrough_attempted"@,
                old(telemetry).base.base_fast_open_passthrough_attempted.plus_one().value,
            )
            } else {
                old(telemetry).base.counters()
            });
        }
    }
}

/// Counts: base fast open passthrough succeeded.
pub fn record_base_fast_open_passthrough_succeeded(telemetry: &mut Telemetry)
    ensures
        *final(telemetry) == if old(telemetry).enabled {
            Telemetry {
                base: BaseCounters {
                    base_fast_open_passthrough_succeeded: old(telemetry).base.base_fast_open_passthrough_succeeded.plus_one(),
                    ..old(telemetry).base
                },
                ..*old(telemetry)
            }
        } else {
            *old(telemetry)
        },
        old(telemetry).base.named() ==> final(telemetry).base.named() && final(telemetry).base.counters()
            == if old(telemetry).enabled {
            old(telemetry).base.counters().insert(
                "base_fast_open_passthrough_succeeded"@,
                old(telemetry).base.base_fast_open_passthrough_succeeded.plus_one().value,
            )
        } else {
            old(telemetry).base.counters()
        },
{
    if is_enabled(telemetry) {
        telemetry.base.base_fast_open_passthrough_succeeded.increment();
    }
    proof {
        if old(telemetry).base.named() {
            lemma_base_codes(old(telemetry).base);
            assert(telemetry.base.counters() =~= if old(telemetry).enabled {
                old(telemetry).base.counters().insert(
                "base_fast_open_passthrough_succeeded"@,
                old(telemetry).base.base_fast_open_passthrough_succeeded.plus_one().value,
            )
            } else {
                old(telemetry).base.counters()
            });
        }
    }
}

/// Counts: base fast open passthrough fallback.
pub fn record_base_fast_open_passthrough_fallback(telemetry: &mut Telemetry)
    ensures
        *final(telemetry) == if old(telemetry).enabled {
            Telemetry {
                base: BaseCounters {
                    base_fast_open_passthrough_fallback: old(telemetry).base.base_fast_open_passthrough_fallback.plus_one(),
                    ..old(telemetry).base
                },
                ..*old(telemetry)
            }
        } else {
            *old(telemetry)
        },
        old(telemetry).base.named() ==> final(telemetry).base.named() && final(telemetry).base.counters()
            == if old(telemetry).enabled {
            old(telemetry).base.counters().insert(
                "base_fast_open_passthrough_fallback"@,
                old(telemetry).base.base_fast_open_passthrough_fallback.plus_one().value,
            )
        } else {
            old(telemetry).base.counters()
        },
{
    if is_enabled(telemetry) {
        telemetry.base.base_fast_open_passthrough_fallback.increment();
    }
    proof {
        if old(telemetry).base.named() {
            lemma_base_codes(old(telemetry).base);
            assert(telemetry.base.counters() =~= if old(telemetry).enabled {
                old(telemetry).base.counters().insert(
                "base_fast_open_passthrough_fallback"@,
                old(telemetry).base.base_fast_open_passthrough_fallback.plus_one().value,
            )
            } else {
                old(telemetry).base.counters()
            });
        }
    }
}

/// Counts: base fast open rejected.
pub fn record_base_fast_open_rejected(telemetry: &mut Telemetry)
    ensures
        *final(telemetry) == if old(telemetry).enabled {
            Telemetry {
                base: BaseCounters {
                    base_fast_open_rejected: old(telemetry).base.base_fast_open_rejected.plus_one(),
                    ..old(telemetry).base
                },
                ..*old(telemetry)
            }
        } else {
            *old(telemetry)
        },
        old(telemetry).base.named() ==> final(telemetry).base.named() && final(telemetry).base.counters()
            == if old(telemetry).enabled {
            old(telemetry).base.counters().insert(
                "base_fast_open_rejected"@,
                old(telemetry).base.base_fast_open_rejected.plus_one().value,
            )
        } else {
            old(telemetry).base.counters()
        },
{
    if is_enabled(telemetry) {
        telemetry.base.base_fast_open_rejected.increment();
    }
    proof {
        if old(telemetry).base.named() {
            lemma_base_codes(old(telemetry).base);
            assert(telemetry.base.counters() =~= if old(telemetry).enabled {
                old(telemetry).base.counters().insert(
                "base_fast_open_rejected"@,
                old(telemetry).base.base_fast_open_rejected.plus_one().value,
            )
            } else {
                old(telemetry).base.counters()
            });
        }
    }
}

/// Counts: base fast inode invalidation.
pub fn record_base_fast_inode_invalidation(telemetry: &mut Telemetry)
    ensures
        *final(telemetry) == if old(telemetry).enabled {
            Telemetry {
                base: BaseCounters {
                    base_fast_inode_invalidations: old(telemetry).base.base_fast_inode_invalidations.plus_one(),
                    ..old(telemetry).base
                },
                ..*old(telemetry)
            }
        } else {
            *old(telemetry)
        },
        old(telemetry).base.named() ==> final(telemetry).base.named() && final(telemetry).base.counters()
            == if old(telemetry).enabled {
            old(telemetry).base.counters().insert(
                "base_fast_inode_invalidations"@,
                old(telemetry).base.base_fast_inode_invalidations.plus_one().value,
            )
        } else {
            old(telemetry).base.counters()
        },
{
    if is_enabled(telemetry) {
        telemetry.base.base_fast_inode_invalidations.increment();
    }
    proof {
        if old(telemetry).base.named() {
            lemma_base_codes(old(telemetry).base);
            assert(telemetry.base.counters() =~= if old(telemetry).enabled {
                old(telemetry).base.counters().insert(
                "base_fast_inode_invalidations"@,
                old(telemetry).base.base_fast_inode_invalidations.plus_one().value,
            )
            } else {
                old(telemetry).base.counters()
            });
        }
    }
}

/// Counts: base fast stale rejection.
pub fn record_base_fast_stale_rejection(telemetry: &mut Telemetry)
    ensures
        *final(telemetry) == if old(telemetry).enabled {
            Telemetry {
                base: BaseCounters {
                    base_fast_stale_rejections: old(telemetry).base.base_fast_stale_rejections.plus_one(),
                    ..old(telemetry).base
                },
                ..*old(telemetry)
            }
        } else {
            *old(telemetry)
        },
        old(telemetry).base.named() ==> final(telemetry).base.named() && final(telemetry).base.counters()
            == if old(telemetry).enabled {
            old(telemetry).base.counters().insert(
                "base_fast_stale_rejections"@,
                old(telemetry).base.base_fast_stale_rejections.plus_one().value,
            )
        } else {
            old(telemetry).base.counters()
        },
{
    if is_enabled(telemetry) {
        telemetry.base.base_fast_stale_rejections.increment();
    }
    proof {
        if old(telemetry).base.named() {
            lemma_base_codes(old(telemetry).base);
            assert(telemetry.base.counters() =~= if old(telemetry).enabled {
                old(telemetry).base.counters().insert(
                "base_fast_stale_rejections"@,
                old(telemetry).base.base_fast_stale_rejections.plus_one().value,
            )
            } else {
                old(telemetry).base.counters()
            });
        }
    }
}

} // verus!
